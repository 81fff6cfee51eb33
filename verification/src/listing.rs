//! Directory listings as plain values, and the order in which the
//! components show them: hidden names left out, sorted by name.
use vstd::prelude::*;
use crate::sort::{keyed_views, lemma_sorted_map_payload, map_payload, sorted_by_key, stable_sort, thirds};
use crate::text::chars_of;

verus! {

/// One entry of a directory listing.
pub struct DirEntry {
    pub name: String,
    pub path: String,
    pub is_dir: bool,
}

pub struct DirEntryView {
    pub name: Seq<char>,
    pub path: Seq<char>,
    pub is_dir: bool,
}

impl View for DirEntry {
    type V = DirEntryView;

    open spec fn view(&self) -> DirEntryView {
        DirEntryView { name: self.name@, path: self.path@, is_dir: self.is_dir }
    }
}

/// A listing that may not have been read, as plain values.
pub open spec fn listing_view(l: Option<Vec<DirEntry>>) -> Option<Seq<DirEntryView>> {
    match l {
        Some(es) => Some(es@.map_values(|e: DirEntry| e@)),
        None => None,
    }
}

/// Names that start with a dot are hidden.
pub open spec fn is_hidden(name: Seq<char>) -> bool {
    name.len() > 0 && name[0] == '.'
}

/// The visible entries of one kind (directories or files), in listing order.
pub open spec fn visible_of(es: Seq<DirEntryView>, dirs: bool) -> Seq<DirEntryView>
    decreases es.len(),
{
    if es.len() == 0 {
        Seq::<DirEntryView>::empty()
    } else {
        let rest = visible_of(es.drop_last(), dirs);
        if !is_hidden(es.last().name) && es.last().is_dir == dirs {
            rest.push(es.last())
        } else {
            rest
        }
    }
}

/// The entries with their names as sort keys.
pub open spec fn by_name(es: Seq<DirEntryView>) -> Seq<(u8, Seq<char>, DirEntryView)> {
    es.map_values(|e: DirEntryView| (0u8, e.name, e))
}

/// The visible entries of one kind, sorted by name (stably).
pub open spec fn sorted_visible(es: Seq<DirEntryView>, dirs: bool) -> Seq<DirEntryView> {
    sorted_by_key(by_name(visible_of(es, dirs))).map_values(|t: (u8, Seq<char>, DirEntryView)| t.2)
}

fn copy_entry(e: &DirEntry) -> (r: DirEntry)
    ensures
        r@ == e@,
{
    DirEntry { name: e.name.clone(), path: e.path.clone(), is_dir: e.is_dir }
}

/// A copy of a listing.
pub fn copy_listing(l: &Option<Vec<DirEntry>>) -> (r: Option<Vec<DirEntry>>)
    ensures
        listing_view(r) == listing_view(*l),
{
    match l {
        Some(es) => {
            let mut out: Vec<DirEntry> = Vec::new();
            let mut k: usize = 0;
            while k < es.len()
                invariant
                    k <= es.len(),
                    out@.map_values(|e: DirEntry| e@) == es@.take(k as int).map_values(|e: DirEntry| e@),
                decreases es.len() - k,
            {
                let ghost before = out@;
                out.push(copy_entry(&es[k]));
                proof {
                    crate::text::lemma_map_push(before, out@.last(), |e: DirEntry| e@);
                    assert(es@.take(k + 1).map_values(|e: DirEntry| e@)
                        =~= es@.take(k as int).map_values(|e: DirEntry| e@).push(es@[k as int]@));
                }
                k = k + 1;
            }
            assert(es@.take(es@.len() as int) =~= es@);
            Some(out)
        },
        None => None,
    }
}

/// The visible entries of one kind, sorted by name.
pub fn sorted_visible_entries(es: &Vec<DirEntry>, dirs: bool) -> (r: Vec<DirEntry>)
    ensures
        r@.map_values(|e: DirEntry| e@) == sorted_visible(es@.map_values(|e: DirEntry| e@), dirs),
{
    let ghost ev = es@.map_values(|e: DirEntry| e@);
    let mut keyed: Vec<(u8, Vec<char>, DirEntry)> = Vec::new();
    let mut i: usize = 0;
    while i < es.len()
        invariant
            i <= es.len(),
            ev == es@.map_values(|e: DirEntry| e@),
            map_payload(keyed_views(keyed@), |e: DirEntry| e@) == by_name(visible_of(ev.take(i as int), dirs)),
        decreases es.len() - i,
    {
        let e = &es[i];
        proof {
            assert(ev.take(i + 1).drop_last() =~= ev.take(i as int));
            assert(ev.take(i + 1).last() == e@);
        }
        let name = chars_of(e.name.as_str());
        let hidden = name.len() > 0 && name[0] == '.';
        if !hidden && e.is_dir == dirs {
            let ghost before = keyed@;
            keyed.push((0u8, name, copy_entry(e)));
            proof {
                assert(map_payload(keyed_views(keyed@), |e: DirEntry| e@)
                    =~= map_payload(keyed_views(before), |e: DirEntry| e@).push((0u8, e@.name, e@)));
            }
        }
        i = i + 1;
    }
    proof {
        assert(ev.take(es.len() as int) =~= ev);
    }
    let sorted = stable_sort(keyed);
    let r = thirds(sorted);
    proof {
        let f = |e: DirEntry| e@;
        lemma_sorted_map_payload(keyed_views(keyed@), f);
        assert(map_payload(keyed_views(keyed@), f) =~= keyed_views(keyed@).map_values(|t: (u8, Seq<char>, DirEntry)| (t.0, t.1, t.2@)));
        let srt = map_payload(keyed_views(sorted@), f);
        assert(srt == sorted_by_key(by_name(visible_of(ev, dirs))));
        assert(r@.map_values(|e: DirEntry| e@) =~= srt.map_values(|t: (u8, Seq<char>, DirEntryView)| t.2));
    }
    r
}

} // verus!
