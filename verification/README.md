# flannel-ng

A network overlay for containers. Each host leases a subnet of a common network in an etcd
registry, follows the leases of the other hosts, and sends the packets for their subnets to them.

- `src/` is the library: addresses and networks, the check of the configuration, the choice of a
  subnet, the subnet file, the renewal of the own lease and the watch on the others, the registry's
  keys and records, and the UDP, VXLAN and host-gw backends' decisions. Every function states what
  it does in `requires` and `ensures`, which Verus proves.
- `app/` is the daemon around it: the command line, etcd, netlink, the tunnel device, the sockets
  and the clock.
- `tests/` runs the library on concrete values.

Properties that span several functions stand beside them as public proof functions.

What the library takes on trust is marked `#[verifier::external_body]`: calls into `ipnetwork`,
`regex`, `macaddr`, `rand` and `serde_json`, each in a small function whose comment says what is
claimed of the call.
