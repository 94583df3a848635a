use vstd::prelude::*;
use vstd::string::*;
use crate::text::owned;
use crate::tree::views;

verus! {

/// The value that a settings file gives one hook event: an array of hook
/// entries, each as its canonical JSON text, or some other JSON value, as
/// its text.
#[derive(Clone, Debug)]
pub enum EventValue {
    Entries(Vec<String>),
    Other(String),
}

/// `d` followed by the entries of `s` that are not there yet, in order; an
/// entry that occurs twice in `s` is added once.
pub open spec fn append_new(d: Seq<Seq<char>>, s: Seq<Seq<char>>) -> Seq<Seq<char>>
    decreases s.len(),
{
    if s.len() == 0 {
        d
    } else {
        let r = append_new(d, s.drop_last());
        if r.contains(s.last()) {
            r
        } else {
            r.push(s.last())
        }
    }
}

/// Appending keeps the existing entries first and in place, and every
/// incoming entry ends up in the result: a merge never replaces one entry by
/// another.
pub proof fn lemma_append_new_keeps_both(d: Seq<Seq<char>>, s: Seq<Seq<char>>)
    ensures
        append_new(d, s).len() >= d.len(),
        append_new(d, s).subrange(0, d.len() as int) == d,
        forall|i: int| 0 <= i < s.len() ==> append_new(d, s).contains(#[trigger] s[i]),
        forall|x: Seq<char>| append_new(d, s).contains(x) ==> d.contains(x) || s.contains(x),
    decreases s.len(),
{
    if s.len() > 0 {
        let p = s.drop_last();
        lemma_append_new_keeps_both(d, p);
        let r = append_new(d, p);
        assert forall|i: int| 0 <= i < s.len() implies append_new(d, s).contains(#[trigger] s[i]) by {
            if i < s.len() - 1 {
                assert(p[i] == s[i]);
                assert(r.contains(p[i]));
                if !r.contains(s.last()) {
                    let j = choose|j: int| 0 <= j < r.len() && r[j] == p[i];
                    assert(r.push(s.last())[j] == s[i]);
                }
            } else {
                if !r.contains(s.last()) {
                    assert(r.push(s.last())[r.len() as int] == s.last());
                }
            }
        }
        assert forall|x: Seq<char>| append_new(d, s).contains(x) implies d.contains(x) || s.contains(x) by {
            if r.contains(x) {
                if !d.contains(x) {
                    assert(p.contains(x));
                    let j = choose|j: int| 0 <= j < p.len() && p[j] == x;
                    assert(s[j] == x);
                }
            } else {
                assert(x == s.last());
                assert(s[s.len() - 1] == x);
            }
        }
        if !r.contains(s.last()) {
            assert(r.push(s.last()).subrange(0, d.len() as int) =~= r.subrange(0, d.len() as int));
        }
    }
}

fn contains_string(v: &Vec<String>, x: &String) -> (r: bool)
    ensures
        r == views(v@).contains(x@),
{
    let mut k: usize = 0;
    while k < v.len()
        invariant
            k <= v@.len(),
            forall|j: int| 0 <= j < k ==> v@[j]@ != x@,
        decreases v@.len() - k,
    {
        if v[k].eq(x) {
            assert(views(v@)[k as int] == x@);
            return true;
        }
        k = k + 1;
    }
    assert forall|j: int| 0 <= j < views(v@).len() implies views(v@)[j] != x@ by {
        assert(views(v@)[j] == v@[j]@);
    }
    false
}

/// Appends to the hook entries of one event those of `source` that it does
/// not hold yet.
pub fn merge_hook_entries(dest: &mut Vec<String>, source: &Vec<String>)
    ensures
        views(final(dest)@) == append_new(views(old(dest)@), views(source@)),
{
    let mut k: usize = 0;
    while k < source.len()
        invariant
            k <= source@.len(),
            views(dest@) == append_new(views(old(dest)@), views(source@.subrange(0, k as int))),
        decreases source@.len() - k,
    {
        let ghost before = views(dest@);
        let ghost sub = views(source@.subrange(0, k + 1));
        assert(sub.drop_last() =~= views(source@.subrange(0, k as int)));
        assert(sub.last() == source@[k as int]@);
        if !contains_string(dest, &source[k]) {
            dest.push(owned(source[k].as_str()));
            assert(views(dest@) =~= before.push(source@[k as int]@));
        }
        k = k + 1;
    }
    assert(source@.subrange(0, source@.len() as int) =~= source@);
}

/// The contents of an event value.
pub enum EventView {
    Entries(Seq<Seq<char>>),
    Other(Seq<char>),
}

pub open spec fn value_view(v: EventValue) -> EventView {
    match v {
        EventValue::Entries(e) => EventView::Entries(views(e@)),
        EventValue::Other(t) => EventView::Other(t@),
    }
}

pub open spec fn events_view(events: Seq<(String, EventValue)>) -> Seq<(Seq<char>, EventView)> {
    events.map_values(|e: (String, EventValue)| (e.0@, value_view(e.1)))
}

/// The first position, from `k` on, of the event named `name`.
pub open spec fn find_event(d: Seq<(Seq<char>, EventView)>, name: Seq<char>, k: int) -> Option<int>
    decreases d.len() - k,
{
    if k < 0 || k >= d.len() {
        None
    } else if d[k].0 == name {
        Some(k)
    } else {
        find_event(d, name, k + 1)
    }
}

/// Merges one incoming event.
pub open spec fn merge_event(d: Seq<(Seq<char>, EventView)>, e: (Seq<char>, EventView)) -> Seq<(Seq<char>, EventView)> {
    match find_event(d, e.0, 0) {
        Some(i) => match (d[i].1, e.1) {
            (EventView::Entries(de), EventView::Entries(se)) => d.update(i, (d[i].0, EventView::Entries(append_new(de, se)))),
            _ => d,
        },
        None => d.push(e),
    }
}

/// Merges the incoming events one after the other.
pub open spec fn merge_events(d: Seq<(Seq<char>, EventView)>, s: Seq<(Seq<char>, EventView)>) -> Seq<(Seq<char>, EventView)>
    decreases s.len(),
{
    if s.len() == 0 {
        d
    } else {
        merge_event(merge_events(d, s.drop_last()), s.last())
    }
}

fn find_event_exec(d: &Vec<(String, EventValue)>, name: &String) -> (r: Option<usize>)
    ensures
        r matches Some(i) ==> find_event(events_view(d@), name@, 0) == Some(i as int) && i < d@.len(),
        r is None ==> find_event(events_view(d@), name@, 0) is None,
{
    let mut k: usize = 0;
    while k < d.len()
        invariant
            k <= d@.len(),
            find_event(events_view(d@), name@, 0) == find_event(events_view(d@), name@, k as int),
        decreases d@.len() - k,
    {
        assert(events_view(d@)[k as int].0 == d@[k as int].0@);
        if d[k].0.eq(name) {
            return Some(k);
        }
        k = k + 1;
    }
    None
}

fn copy_value(v: &EventValue) -> (r: EventValue)
    ensures
        value_view(r) == value_view(*v),
{
    match v {
        EventValue::Entries(e) => {
            let mut out: Vec<String> = Vec::new();
            let mut k: usize = 0;
            while k < e.len()
                invariant
                    k <= e@.len(),
                    views(out@) == views(e@.subrange(0, k as int)),
                decreases e@.len() - k,
            {
                let ghost b = out@;
                out.push(owned(e[k].as_str()));
                assert(e@.subrange(0, k + 1) =~= e@.subrange(0, k as int).push(e@[k as int]));
                assert(views(out@) =~= views(b).push(e@[k as int]@));
                assert(views(e@.subrange(0, k as int).push(e@[k as int])) =~= views(e@.subrange(0, k as int)).push(e@[k as int]@));
                k = k + 1;
            }
            assert(e@.subrange(0, e@.len() as int) =~= e@);
            EventValue::Entries(out)
        },
        EventValue::Other(t) => EventValue::Other(owned(t.as_str())),
    }
}

/// Merges the `hooks` section of a settings file into another: for an event
/// that both hold as arrays, the incoming entries not yet present are
/// appended; an event that only `source` has is added with its value; an
/// event that one of them holds as something else than an array is left as
/// `dest` has it.
pub fn merge_hooks(dest: &mut Vec<(String, EventValue)>, source: &Vec<(String, EventValue)>)
    ensures
        events_view(final(dest)@) == merge_events(events_view(old(dest)@), events_view(source@)),
{
    let mut k: usize = 0;
    while k < source.len()
        invariant
            k <= source@.len(),
            events_view(dest@) == merge_events(events_view(old(dest)@), events_view(source@.subrange(0, k as int))),
        decreases source@.len() - k,
    {
        let ghost before = events_view(dest@);
        let ghost sub = events_view(source@.subrange(0, k + 1));
        assert(sub.drop_last() =~= events_view(source@.subrange(0, k as int)));
        let ghost e = (source@[k as int].0@, value_view(source@[k as int].1));
        assert(sub.last() == e);
        let name = &source[k].0;
        match find_event_exec(dest, name) {
            Some(i) => {
                let both = match (&dest[i].1, &source[k].1) {
                    (EventValue::Entries(_), EventValue::Entries(_)) => true,
                    _ => false,
                };
                if both {
                    let (n, v) = dest.remove(i);
                    let mut entries = match v {
                        EventValue::Entries(x) => x,
                        EventValue::Other(_) => Vec::new(),
                    };
                    if let EventValue::Entries(se) = &source[k].1 {
                        merge_hook_entries(&mut entries, se);
                    }
                    dest.insert(i, (n, EventValue::Entries(entries)));
                    assert(events_view(dest@) =~= merge_event(before, e));
                } else {
                    assert(events_view(dest@) =~= merge_event(before, e));
                }
            },
            None => {
                let v = copy_value(&source[k].1);
                dest.push((owned(name.as_str()), v));
                assert(events_view(dest@) =~= merge_event(before, e));
            },
        }
        k = k + 1;
    }
    assert(source@.subrange(0, source@.len() as int) =~= source@);
}

} // verus!
