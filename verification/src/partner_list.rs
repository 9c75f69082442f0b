//! The partner list: the bytes in which a node tells its peers who its
//! partners are.

use crate::node::{Partnership, PartnershipView};
use std::collections::BTreeMap;
use vstd::prelude::*;
use vstd::std_specs::btree::*;
use vstd::std_specs::cmp::OrdSpec;
use vstd::std_specs::iter::IteratorSpec;
use vstd::utf8::encode_utf8;

verus! {

/// One entry of the partner list: an address and the NUL byte that ends it.
pub open spec fn partner_entry(address: Seq<char>) -> Seq<u8> {
    encode_utf8(address) + seq![0u8]
}

/// The entries of the active partners whose id is below `bound`, in the
/// order of their ids.
pub open spec fn partner_entries_below(active: Map<u32, PartnershipView>, bound: nat) -> Seq<u8>
    decreases bound,
{
    if bound == 0 {
        Seq::empty()
    } else {
        let id = (bound - 1) as u32;
        let before = partner_entries_below(active, (bound - 1) as nat);
        if active.contains_key(id) {
            before + partner_entry(active[id].address)
        } else {
            before
        }
    }
}

/// The partner list as peers read it: this node's own contact method, then
/// the address of each active partner in the order of the partnering ids,
/// each ended by a NUL byte.
pub open spec fn partner_list_bytes(
    contact_method: Seq<char>,
    active: Map<u32, PartnershipView>,
) -> Seq<u8> {
    partner_entry(contact_method) + partner_entries_below(active, 0x1_0000_0000)
}

/// The ids of `partnerships`, each once, from the smallest to the largest.
fn ascending_ids(partnerships: &BTreeMap<u32, Partnership>) -> (ids: Vec<u32>)
    ensures
        forall|i: int| 0 <= i < ids@.len() ==> partnerships@.contains_key(#[trigger] ids@[i]),
        forall|id: u32| partnerships@.contains_key(id) ==> ids@.contains(id),
        forall|i: int, j: int| 0 <= i < j < ids@.len() ==> ids@[i] < ids@[j],
{
    broadcast use group_btree_axioms;
    broadcast use vstd::laws_cmp::group_laws_cmp;

    let mut ids: Vec<u32> = Vec::new();
    let ghost keys = partnerships.keys().remaining();
    for id in walk: partnerships.keys()
        invariant
            walk.seq() == keys,
            ids@.len() == walk.index(),
            forall|i: int| 0 <= i < ids@.len() ==> ids@[i] == *keys[i],
    {
        ids.push(*id);
    }
    proof {
        assert(keys.unref().to_set() == partnerships@.dom());
        axiom_increasing_seq_meaning::<&u32>(keys);
        assert forall|i: int| 0 <= i < ids@.len() implies partnerships@.contains_key(
            #[trigger] ids@[i],
        ) by {
            assert(keys.unref()[i] == ids@[i]);
            assert(keys.unref().to_set().contains(keys.unref()[i]));
        }
        assert forall|id: u32| partnerships@.contains_key(id) implies ids@.contains(id) by {
            assert(keys.unref().to_set().contains(id));
            let i = choose|i: int| 0 <= i < keys.unref().len() && keys.unref()[i] == id;
            assert(ids@[i] == id);
        }
        assert forall|i: int, j: int| 0 <= i < j < ids@.len() implies ids@[i] < ids@[j] by {
            assert(OrdSpec::cmp_spec(&keys[i], &keys[j]) is Less);
        }
    }
    ids
}

/// Where no active partner has an id from `low` up to, but not including,
/// `high`, the entries below `high` are those below `low`.
proof fn lemma_no_entries_between(active: Map<u32, PartnershipView>, low: nat, high: nat)
    requires
        low <= high <= 0x1_0000_0000,
        forall|id: u32| low <= id < high ==> !active.contains_key(id),
    ensures
        partner_entries_below(active, high) == partner_entries_below(active, low),
    decreases high,
{
    if low < high {
        lemma_no_entries_between(active, low, (high - 1) as nat);
        assert(!active.contains_key((high - 1) as u32));
    }
}

/// The partnerships as values, each under its id.
pub open spec fn partnership_views(partnerships: Map<u32, Partnership>) -> Map<
    u32,
    PartnershipView,
> {
    partnerships.map_values(|p: Partnership| p@)
}

/// Builds the partner list of a node that answers to `contact_method` and
/// has the partnerships `active` in use.
pub fn build_partner_list(contact_method: &str, active: &BTreeMap<u32, Partnership>) -> (list: Vec<
    u8,
>)
    ensures
        list@ == partner_list_bytes(contact_method@, partnership_views(active@)),
{
    broadcast use group_btree_axioms;

    let ghost views = partnership_views(active@);
    let ghost own = partner_entry(contact_method@);
    let mut partner_list: Vec<u8> = Vec::new();
    partner_list.extend_from_slice(contact_method.as_bytes());
    partner_list.push(0);
    assert(partner_list@ =~= own);

    let ids = ascending_ids(active);
    let ghost mut low: nat = 0;
    let mut i: usize = 0;
    while i < ids.len()
        invariant
            i <= ids@.len(),
            views == partnership_views(active@),
            forall|k: int| 0 <= k < ids@.len() ==> views.contains_key(#[trigger] ids@[k]),
            forall|id: u32| views.contains_key(id) ==> ids@.contains(id),
            forall|k: int, j: int| 0 <= k < j < ids@.len() ==> ids@[k] < ids@[j],
            low <= 0x1_0000_0000,
            i > 0 ==> low == ids@[i - 1] + 1,
            i == 0 ==> low == 0,
            partner_list@ == own + partner_entries_below(views, low),
        decreases ids@.len() - i,
    {
        let id = ids[i];
        proof {
            assert forall|other: u32| low <= other < id implies !views.contains_key(other) by {
                if views.contains_key(other) {
                    let j = choose|j: int| 0 <= j < ids@.len() && ids@[j] == other;
                    if j < i {
                        assert(ids@[j] <= ids@[i - 1]);
                    } else if j > i {
                        assert(ids@[i as int] < ids@[j]);
                    }
                }
            }
            lemma_no_entries_between(views, low, id as nat);
        }
        match active.get(&id) {
            Some(partner) => {
                let ghost before = partner_list@;
                partner_list.extend_from_slice(partner.address.as_str().as_bytes());
                partner_list.push(0);
                assert(partner_list@ =~= before + partner_entry(views[id].address));
            },
            None => {},
        }
        proof {
            low = (id + 1) as nat;
        }
        i = i + 1;
    }
    proof {
        assert forall|other: u32| low <= other < 0x1_0000_0000 implies !views.contains_key(
            other,
        ) by {
            if views.contains_key(other) {
                let j = choose|j: int| 0 <= j < ids@.len() && ids@[j] == other;
                if j < i - 1 {
                    assert(ids@[j] < ids@[i - 1]);
                }
            }
        }
        lemma_no_entries_between(views, low, 0x1_0000_0000);
    }
    partner_list
}

} // verus!
