use vstd::prelude::*;

verus! {

/// The fixed set of paths a client may use: path `i` goes from local port
/// `local_base + i` to peer port `peer_base + i % peer_slots`, so peer slots
/// are reused cyclically once there are more paths than slots.
#[derive(Clone, Copy, Debug, PartialEq, Eq, Structural)]
pub struct PathPool {
    pub n_paths: usize,
    pub local_base: u16,
    pub peer_base: u16,
    pub peer_slots: u16,
}

impl PathPool {
    /// Every port the pool can name fits in 16 bits and there is at least one
    /// peer slot.
    pub open spec fn wf(self) -> bool {
        &&& self.peer_slots > 0
        &&& self.local_base + self.n_paths <= 0x1_0000
        &&& self.peer_base + self.peer_slots <= 0x1_0000
    }

    pub open spec fn local_port_of(self, i: int) -> int {
        self.local_base + i
    }

    pub open spec fn peer_port_of(self, i: int) -> int {
        self.peer_base + i % (self.peer_slots as int)
    }

    /// Builds the pool, or `None` when one of its ports would not fit in 16
    /// bits or there is no peer slot.
    pub fn new(n_paths: usize, local_base: u16, peer_base: u16, peer_slots: u16) -> (r: Option<
        PathPool,
    >)
        ensures
            r matches Some(p) ==> p.wf() && p.n_paths == n_paths && p.local_base == local_base
                && p.peer_base == peer_base && p.peer_slots == peer_slots,
            r is Some <==> (peer_slots > 0 && local_base + n_paths <= 0x1_0000 && peer_base
                + peer_slots <= 0x1_0000),
    {
        if peer_slots == 0 || n_paths > 0x1_0000 || (local_base as usize) + n_paths > 0x1_0000
            || (peer_base as u32) + (peer_slots as u32) > 0x1_0000 {
            None
        } else {
            Some(PathPool { n_paths, local_base, peer_base, peer_slots })
        }
    }

    /// Local port of path `i`.
    pub fn local_port(&self, i: usize) -> (r: u16)
        requires
            self.wf(),
            i < self.n_paths,
        ensures
            r == self.local_port_of(i as int),
    {
        ((self.local_base as usize) + i) as u16
    }

    /// Peer port of path `i`.
    pub fn peer_port(&self, i: usize) -> (r: u16)
        requires
            self.wf(),
        ensures
            r == self.peer_port_of(i as int),
    {
        let slot: usize = i % (self.peer_slots as usize);
        ((self.peer_base as usize) + slot) as u16
    }

    /// Index of the path whose local port is `local`, if the pool has one.
    /// A datagram the engine sends from `local` goes out on that socket.
    pub fn local_index(&self, local: u16) -> (r: Option<usize>)
        requires
            self.wf(),
        ensures
            r matches Some(i) ==> i < self.n_paths && self.local_port_of(i as int) == local,
            r is None ==> forall|i: int|
                0 <= i < self.n_paths ==> self.local_port_of(i) != local,
    {
        if local < self.local_base {
            None
        } else {
            let i: usize = (local - self.local_base) as usize;
            if i < self.n_paths {
                Some(i)
            } else {
                None
            }
        }
    }

    /// Index of the path from `local` to `peer`, if the pool holds that pair.
    pub fn path_index(&self, local: u16, peer: u16) -> (r: Option<usize>)
        requires
            self.wf(),
        ensures
            r matches Some(i) ==> i < self.n_paths && self.local_port_of(i as int) == local
                && self.peer_port_of(i as int) == peer,
            r is None ==> forall|i: int|
                0 <= i < self.n_paths ==> !(self.local_port_of(i) == local
                    && self.peer_port_of(i) == peer),
    {
        match self.local_index(local) {
            Some(i) => {
                if self.peer_port(i) == peer {
                    Some(i)
                } else {
                    None
                }
            },
            None => None,
        }
    }
}

} // verus!
