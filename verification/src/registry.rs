//! The server's routing registry: which client a public hostname belongs to.

use crate::ids::ClientId;
use crate::wire::same_text;
use vstd::prelude::*;

verus! {

/// One hostname and the client that it is routed to.
#[derive(Debug)]
struct Binding {
    hostname: String,
    client_id: ClientId,
}

/// A hostname is already routed to another live client.
#[derive(Clone, Copy, Debug, PartialEq, Eq, Structural)]
pub struct AlreadyBound;

/// The hostnames that are bound, each to one client.
#[derive(Debug)]
pub struct RoutingRegistry {
    bindings: Vec<Binding>,
}

/// Whether `i` is the place of a binding of `hostname`.
spec fn binds_at(bindings: Seq<Binding>, i: int, hostname: Seq<char>) -> bool {
    0 <= i < bindings.len() && bindings[i].hostname@ == hostname
}

/// No hostname stands at two places.
spec fn distinct_hostnames(bindings: Seq<Binding>) -> bool {
    forall|i: int, j: int|
        0 <= i < bindings.len() && 0 <= j < bindings.len() && #[trigger] bindings[i].hostname@
            == #[trigger] bindings[j].hostname@ ==> i == j
}

/// The map from hostname to client id that a list of bindings stands for.
spec fn bindings_map(bindings: Seq<Binding>) -> Map<Seq<char>, Seq<char>> {
    Map::new(
        |hostname: Seq<char>| exists|i: int| binds_at(bindings, i, hostname),
        |hostname: Seq<char>| bindings[choose|i: int| binds_at(bindings, i, hostname)].client_id@,
    )
}

/// `routes` without the hostnames of `client`.
pub open spec fn without_client(routes: Map<Seq<char>, Seq<char>>, client: Seq<char>) -> Map<
    Seq<char>,
    Seq<char>,
> {
    Map::new(
        |hostname: Seq<char>| routes.contains_key(hostname) && routes[hostname] != client,
        |hostname: Seq<char>| routes[hostname],
    )
}

/// Whether two bindings name the same hostname and the same client.
spec fn same_binding(a: Binding, b: Binding) -> bool {
    a.hostname@ == b.hostname@ && a.client_id@ == b.client_id@
}

/// Whether `binding` stands among the first `upto` of `bindings` and belongs
/// to another client than `client`.
spec fn kept_from(bindings: Seq<Binding>, upto: int, client: Seq<char>, binding: Binding) -> bool {
    exists|k: int|
        0 <= k < upto && k < bindings.len() && same_binding(#[trigger] bindings[k], binding)
            && bindings[k].client_id@ != client
}

/// Whether `binding` stands among `bindings`.
spec fn held_in(bindings: Seq<Binding>, binding: Binding) -> bool {
    exists|j: int| 0 <= j < bindings.len() && same_binding(#[trigger] bindings[j], binding)
}

impl View for RoutingRegistry {
    type V = Map<Seq<char>, Seq<char>>;

    closed spec fn view(&self) -> Map<Seq<char>, Seq<char>> {
        bindings_map(self.bindings@)
    }
}

impl RoutingRegistry {
    #[verifier::type_invariant]
    spec fn well_formed(self) -> bool {
        distinct_hostnames(self.bindings@)
    }

    /// A registry with nothing bound.
    pub fn new() -> (registry: RoutingRegistry)
        ensures
            registry@ == Map::<Seq<char>, Seq<char>>::empty(),
    {
        let registry = RoutingRegistry { bindings: Vec::new() };
        proof {
            assert(registry@ =~= Map::<Seq<char>, Seq<char>>::empty());
        }
        registry
    }

    /// The place of `hostname` among the bindings.
    fn position(&self, hostname: &str) -> (r: Option<usize>)
        ensures
            match r {
                Some(i) => binds_at(self.bindings@, i as int, hostname@),
                None => forall|i: int| !binds_at(self.bindings@, i, hostname@),
            },
    {
        let mut i: usize = 0;
        while i < self.bindings.len()
            invariant
                i <= self.bindings.len(),
                forall|j: int| 0 <= j < i ==> !binds_at(self.bindings@, j, hostname@),
            decreases self.bindings.len() - i,
        {
            if same_text(self.bindings[i].hostname.as_str(), hostname) {
                return Some(i);
            }
            i += 1;
        }
        None
    }

    /// The client that `hostname` is routed to, if any. Nothing changes.
    pub fn lookup(&self, hostname: &str) -> (r: Option<ClientId>)
        ensures
            match r {
                Some(client) => self@.contains_key(hostname@) && self@[hostname@] == client@,
                None => !self@.contains_key(hostname@),
            },
    {
        proof {
            use_type_invariant(self);
        }
        match self.position(hostname) {
            Some(i) => {
                let found = &self.bindings[i].client_id;
                let client = ClientId(found.0.clone());
                proof {
                    let j = choose|j: int| binds_at(self.bindings@, j, hostname@);
                    assert(j == i);
                }
                Some(client)
            },
            None => None,
        }
    }

    /// Routes `hostname` to `client`. A hostname that is routed to another
    /// client stays with it, and the call fails; one that is free, or routed
    /// to `client` already, is routed to `client` afterwards.
    pub fn bind(&mut self, hostname: String, client: ClientId) -> (r: Result<(), AlreadyBound>)
        ensures
            match r {
                Ok(_) => {
                    &&& !old(self)@.contains_key(hostname@) || old(self)@[hostname@] == client@
                    &&& final(self)@ == old(self)@.insert(hostname@, client@)
                },
                Err(_) => {
                    &&& old(self)@.contains_key(hostname@)
                    &&& old(self)@[hostname@] != client@
                    &&& final(self)@ == old(self)@
                },
            },
    {
        proof {
            use_type_invariant(&*self);
        }
        let ghost before = self.bindings@;
        match self.position(hostname.as_str()) {
            Some(i) => {
                proof {
                    let j = choose|j: int| binds_at(before, j, hostname@);
                    assert(j == i);
                }
                if self.bindings[i].client_id.same(&client) {
                    proof {
                        assert(self@ =~= self@.insert(hostname@, client@));
                    }
                    Ok(())
                } else {
                    Err(AlreadyBound)
                }
            },
            None => {
                let ghost name = hostname@;
                let ghost owner = client@;
                let mut bindings: Vec<Binding> = Vec::new();
                core::mem::swap(&mut self.bindings, &mut bindings);
                bindings.push(Binding { hostname, client_id: client });
                proof {
                    assert forall|a: int, b: int|
                        0 <= a < bindings@.len() && 0 <= b < bindings@.len()
                            && #[trigger] bindings@[a].hostname@
                            == #[trigger] bindings@[b].hostname@ implies a == b by {
                        if a < before.len() {
                            assert(bindings@[a] == before[a]);
                            assert(!binds_at(before, a, name));
                        }
                        if b < before.len() {
                            assert(bindings@[b] == before[b]);
                            assert(!binds_at(before, b, name));
                        }
                    }
                }
                self.bindings = bindings;
                proof {
                    let after = self.bindings@;
                    let last = before.len() as int;
                    assert(binds_at(after, last, name));
                    assert forall|h: Seq<char>|
                        bindings_map(after).contains_key(h) <==> #[trigger] bindings_map(
                            before,
                        ).insert(name, owner).contains_key(h) by {
                        if bindings_map(after).contains_key(h) {
                            let j = choose|j: int| binds_at(after, j, h);
                            if j < last {
                                assert(binds_at(before, j, h));
                            }
                        }
                        if bindings_map(before).contains_key(h) {
                            let j = choose|j: int| binds_at(before, j, h);
                            assert(binds_at(after, j, h));
                        }
                    }
                    assert forall|h: Seq<char>| #[trigger]
                        bindings_map(after).contains_key(h) implies bindings_map(after)[h]
                        == bindings_map(before).insert(name, owner)[h] by {
                        let j = choose|j: int| binds_at(after, j, h);
                        if j < last {
                            assert(binds_at(before, j, h));
                            let k = choose|k: int| binds_at(before, k, h);
                            assert(binds_at(after, k, h));
                            assert(after[k].hostname@ == after[j].hostname@);
                        } else {
                            assert(h == name);
                        }
                    }
                    assert(bindings_map(after) =~= bindings_map(before).insert(name, owner));
                }
                Ok(())
            },
        }
    }

    /// Removes every binding of `client`; the other bindings stay as they are.
    pub fn unbind(&mut self, client: &ClientId)
        ensures
            final(self)@ == without_client(old(self)@, client@),
    {
        proof {
            use_type_invariant(&*self);
        }
        let ghost before = self.bindings@;
        let mut kept: Vec<Binding> = Vec::new();
        let mut i: usize = 0;
        while i < self.bindings.len()
            invariant
                i <= self.bindings.len(),
                self.bindings@ == before,
                distinct_hostnames(before),
                distinct_hostnames(kept@),
                forall|j: int|
                    0 <= j < kept@.len() ==> kept_from(before, i as int, client@, #[trigger] kept@[j]),
                forall|k: int|
                    0 <= k < i && before[k].client_id@ != client@ ==> held_in(
                        kept@,
                        #[trigger] before[k],
                    ),
            decreases self.bindings.len() - i,
        {
            let ghost kept_before = kept@;
            if !self.bindings[i].client_id.same(client) {
                let hostname = self.bindings[i].hostname.clone();
                let client_id = ClientId(self.bindings[i].client_id.0.clone());
                kept.push(Binding { hostname, client_id });
                proof {
                    let last = kept_before.len() as int;
                    assert(same_binding(kept@[last], before[i as int]));
                    assert forall|a: int, b: int|
                        0 <= a < kept@.len() && 0 <= b < kept@.len() && #[trigger] kept@[a].hostname@
                            == #[trigger] kept@[b].hostname@ implies a == b by {
                        if a < last {
                            assert(kept@[a] == kept_before[a]);
                            assert(kept_from(before, i as int, client@, kept_before[a]));
                        }
                        if b < last {
                            assert(kept@[b] == kept_before[b]);
                            assert(kept_from(before, i as int, client@, kept_before[b]));
                        }
                    }
                }
            }
            proof {
                assert forall|j: int| 0 <= j < kept@.len() implies kept_from(
                    before,
                    i + 1,
                    client@,
                    #[trigger] kept@[j],
                ) by {
                    if j < kept_before.len() {
                        assert(kept@[j] == kept_before[j]);
                        assert(kept_from(before, i as int, client@, kept_before[j]));
                        let k = choose|k: int|
                            0 <= k < i && same_binding(before[k], kept_before[j])
                                && before[k].client_id@ != client@;
                        assert(0 <= k < i + 1 && same_binding(before[k], kept@[j]));
                    } else {
                        assert(same_binding(before[i as int], kept@[j]));
                    }
                }
                assert forall|k: int|
                    0 <= k < i + 1 && before[k].client_id@ != client@ implies held_in(
                    kept@,
                    #[trigger] before[k],
                ) by {
                    if k < i {
                        assert(held_in(kept_before, before[k]));
                        let j = choose|j: int|
                            0 <= j < kept_before.len() && same_binding(kept_before[j], before[k]);
                        assert(kept@[j] == kept_before[j]);
                        assert(0 <= j < kept@.len() && same_binding(kept@[j], before[k]));
                    } else {
                        let last = kept_before.len() as int;
                        assert(same_binding(kept@[last], before[k]));
                    }
                }
            }
            i += 1;
        }
        self.bindings = kept;
        proof {
            let after = self.bindings@;
            let goal = without_client(bindings_map(before), client@);
            assert forall|h: Seq<char>| bindings_map(after).contains_key(h) <==> #[trigger]
                goal.contains_key(h) by {
                if bindings_map(after).contains_key(h) {
                    let j = choose|j: int| binds_at(after, j, h);
                    assert(kept_from(before, before.len() as int, client@, after[j]));
                    let k = choose|k: int|
                        0 <= k < before.len() && same_binding(before[k], after[j])
                            && before[k].client_id@ != client@;
                    assert(binds_at(before, k, h));
                    let c = choose|c: int| binds_at(before, c, h);
                    assert(before[c].hostname@ == before[k].hostname@);
                }
                if goal.contains_key(h) {
                    let c = choose|c: int| binds_at(before, c, h);
                    assert(held_in(after, before[c]));
                    let j = choose|j: int|
                        0 <= j < after.len() && same_binding(after[j], before[c]);
                    assert(binds_at(after, j, h));
                }
            }
            assert forall|h: Seq<char>| #[trigger]
                bindings_map(after).contains_key(h) implies bindings_map(after)[h] == goal[h] by {
                let j = choose|j: int| binds_at(after, j, h);
                assert(kept_from(before, before.len() as int, client@, after[j]));
                let k = choose|k: int|
                    0 <= k < before.len() && same_binding(before[k], after[j])
                        && before[k].client_id@ != client@;
                assert(binds_at(before, k, h));
                let c = choose|c: int| binds_at(before, c, h);
                assert(before[c].hostname@ == before[k].hostname@);
            }
            assert(bindings_map(after) =~= goal);
        }
    }
}

} // verus!
