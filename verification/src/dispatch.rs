//! The event dispatch table and the routing of streamed lines.
//!
//! A streamed line carries an event when it starts with `data:` and its
//! remainder is a JSON object with string fields `app-id` and `type`. The
//! table files one callback per listener key; routing picks the callback the
//! decoded key is filed under, and anything else drops the line silently.

use vstd::prelude::*;
use crate::bytes::bytes_eq;
use crate::bytes::starts_with;
use crate::bytes::copy_range;
use crate::bytes::is_prefix_of;
use crate::consts::data_prefix_bytes;
use crate::consts::app_id_key_bytes;
use crate::consts::type_key_bytes;
use crate::consts::make_data_prefix;
use crate::consts::make_app_id_key;
use crate::consts::make_type_key;
use crate::doc::Doc;
use crate::doc::map_of;
use crate::doc::pairs_view;
use crate::doc::unique_keys;
use crate::doc::lemma_map_of_at;
use crate::doc::lemma_map_of_contains;
use crate::doc::lemma_map_of_push;
use crate::doc::lemma_map_of_update;
use crate::hub_json::json_top_entries;
use crate::hub_json::json_string_value;
use crate::hub_json::parse_top;
use crate::hub_json::parse_string;
use crate::hub_json::TopParse;

verus! {

/// The key under which the callback for (`app_id`, `event_type`) is filed:
/// the two joined by an underscore.
pub open spec fn listener_key_spec(app_id: Seq<u8>, event_type: Seq<u8>) -> Seq<u8> {
    app_id + seq![0x5fu8] + event_type
}

/// Builds the listener key of an application id and an event type.
pub fn listener_key(app_id: &[u8], event_type: &[u8]) -> (r: Vec<u8>)
    ensures
        r@ == listener_key_spec(app_id@, event_type@),
{
    let mut out: Vec<u8> = Vec::new();
    out.extend_from_slice(app_id);
    out.push(0x5f);
    out.extend_from_slice(event_type);
    assert(out@ =~= listener_key_spec(app_id@, event_type@));
    out
}

/// The key pairs of a callback table as sequences.
pub open spec fn cb_pairs_view<C>(entries: Seq<(Vec<u8>, C)>) -> Seq<(Seq<u8>, C)> {
    Seq::new(entries.len(), |i: int| (entries[i].0@, entries[i].1))
}

/// The callbacks filed under listener keys. A later registration under a
/// key replaces the earlier one.
pub struct ListenerTable<C> {
    pub entries: Vec<(Vec<u8>, C)>,
}

impl<C> ListenerTable<C> {
    /// Keys are unique.
    pub open spec fn wf(&self) -> bool {
        unique_keys(cb_pairs_view(self.entries@))
    }

    /// The mapping from listener key to callback.
    pub open spec fn as_map(&self) -> Map<Seq<u8>, C> {
        map_of(cb_pairs_view(self.entries@))
    }

    /// A table with no listeners.
    pub fn new() -> (r: Self)
        ensures
            r.wf(),
            r.as_map() == Map::<Seq<u8>, C>::empty(),
    {
        let r = ListenerTable { entries: Vec::new() };
        assert(cb_pairs_view(r.entries@) =~= Seq::<(Seq<u8>, C)>::empty());
        r
    }

    /// Files `callback` under the key of (`app_id`, `event_type`), replacing
    /// any callback already filed there.
    #[verifier::loop_isolation(false)]
    pub fn add_listener(&mut self, app_id: &[u8], event_type: &[u8], callback: C)
        requires
            old(self).wf(),
        ensures
            final(self).wf(),
            final(self).as_map() == old(self).as_map().insert(
                listener_key_spec(app_id@, event_type@),
                callback,
            ),
    {
        let key = listener_key(app_id, event_type);
        let ghost pairs = cb_pairs_view(self.entries@);
        let mut i: usize = 0;
        while i < self.entries.len()
            invariant
                i <= self.entries@.len(),
                self.entries@ == old(self).entries@,
                forall|j: int| 0 <= j < i ==> pairs[j].0 != key@,
            decreases self.entries@.len() - i,
        {
            if bytes_eq(self.entries[i].0.as_slice(), key.as_slice()) {
                self.entries[i].1 = callback;
                proof {
                    assert(cb_pairs_view(self.entries@) =~= pairs.update(
                        i as int,
                        (key@, callback),
                    ));
                    lemma_map_of_update(pairs, i as int, callback);
                    assert(self.as_map() =~= old(self).as_map().insert(key@, callback));
                }
                return ;
            }
            i += 1;
        }
        self.entries.push((key, callback));
        proof {
            assert(cb_pairs_view(self.entries@) =~= pairs.push((key@, callback)));
            lemma_map_of_push(pairs, key@, callback);
        }
    }

    /// The callback filed under `key`.
    #[verifier::loop_isolation(false)]
    pub fn lookup(&self, key: &[u8]) -> (r: Option<&C>)
        requires
            self.wf(),
        ensures
            match r {
                Some(c) => self.as_map().dom().contains(key@) && *c == self.as_map()[key@],
                None => !self.as_map().dom().contains(key@),
            },
    {
        let ghost pairs = cb_pairs_view(self.entries@);
        let mut i: usize = 0;
        while i < self.entries.len()
            invariant
                i <= self.entries@.len(),
                forall|j: int| 0 <= j < i ==> pairs[j].0 != key@,
            decreases self.entries@.len() - i,
        {
            if bytes_eq(self.entries[i].0.as_slice(), key) {
                proof {
                    lemma_map_of_at(pairs, i as int);
                }
                return Some(&self.entries[i].1);
            }
            i += 1;
        }
        proof {
            lemma_map_of_contains(pairs, key@);
        }
        None
    }
}

/// Registering a second callback under the same key leaves the table as if
/// only the second had been registered: the first never fires again.
pub proof fn lemma_last_registration_wins<C>(
    m: Map<Seq<u8>, C>,
    app_id: Seq<u8>,
    event_type: Seq<u8>,
    first: C,
    second: C,
)
    ensures
        m.insert(listener_key_spec(app_id, event_type), first).insert(
            listener_key_spec(app_id, event_type),
            second,
        ) == m.insert(listener_key_spec(app_id, event_type), second),
{
    let k = listener_key_spec(app_id, event_type);
    assert(m.insert(k, first).insert(k, second) =~= m.insert(k, second));
}

/// The listener key of a streamed line: `Some` exactly for a line with the
/// `data:` prefix whose remainder is a JSON object holding string fields
/// `app-id` and `type`.
pub open spec fn event_key_of(line: Seq<u8>) -> Option<Seq<u8>> {
    if !is_prefix_of(data_prefix_bytes(), line) {
        None
    } else {
        match json_top_entries(line.skip(5)) {
            Some(Some(es)) => {
                let m = map_of(es);
                if m.dom().contains(app_id_key_bytes()) && m.dom().contains(type_key_bytes()) {
                    match (json_string_value(m[app_id_key_bytes()]), json_string_value(
                        m[type_key_bytes()],
                    )) {
                        (Some(a), Some(t)) => Some(listener_key_spec(a, t)),
                        _ => None,
                    }
                } else {
                    None
                }
            },
            _ => None,
        }
    }
}

/// A line without the `data:` prefix carries no event.
pub proof fn lemma_non_data_line_no_event(line: Seq<u8>)
    requires
        !is_prefix_of(data_prefix_bytes(), line),
    ensures
        event_key_of(line) is None,
{
}

/// A `data:` line whose remainder is not JSON carries no event.
pub proof fn lemma_bad_json_line_no_event(line: Seq<u8>)
    requires
        json_top_entries(line.skip(5)) is None,
    ensures
        event_key_of(line) is None,
{
}

/// Decodes a streamed line into its listener key and event document, or
/// `None` for a line that carries no event.
pub fn route_line(line: &[u8]) -> (r: Option<(Vec<u8>, Doc)>)
    ensures
        match r {
            Some(p) => event_key_of(line@) == Some(p.0@) && p.1.wf() && (json_top_entries(
                line@.skip(5),
            ) matches Some(Some(es)) && p.1.as_map() == map_of(es)),
            None => event_key_of(line@) is None,
        },
{
    let prefix = make_data_prefix();
    if !starts_with(line, prefix.as_slice()) {
        return None;
    }
    let body = copy_range(line, 5, line.len());
    proof {
        assert(body@ =~= line@.skip(5));
    }
    match parse_top(body.as_slice()) {
        TopParse::Object(entries) => {
            let d = Doc { entries };
            let app_key = make_app_id_key();
            let type_key = make_type_key();
            let app_raw = match d.get(app_key.as_slice()) {
                Some(v) => v,
                None => {
                    return None;
                },
            };
            let app_id = match parse_string(app_raw.as_slice()) {
                Some(s) => s,
                None => {
                    return None;
                },
            };
            let type_raw = match d.get(type_key.as_slice()) {
                Some(v) => v,
                None => {
                    return None;
                },
            };
            let event_type = match parse_string(type_raw.as_slice()) {
                Some(s) => s,
                None => {
                    return None;
                },
            };
            let key = listener_key(app_id.as_slice(), event_type.as_slice());
            Some((key, d))
        },
        _ => None,
    }
}

/// Picks the callback a streamed line is routed to: the callback filed
/// under the line's listener key, with the decoded event document, exactly
/// when the line carries an event whose key has a listener.
pub fn handle_line<'a, C>(table: &'a ListenerTable<C>, line: &[u8]) -> (r: Option<(&'a C, Doc)>)
    requires
        table.wf(),
    ensures
        match r {
            Some(p) => (event_key_of(line@) matches Some(k) && table.as_map().dom().contains(k)
                && *p.0 == table.as_map()[k]) && p.1.wf() && (json_top_entries(
                line@.skip(5),
            ) matches Some(Some(es)) && p.1.as_map() == map_of(es)),
            None => event_key_of(line@) matches Some(k) ==> !table.as_map().dom().contains(k),
        },
{
    match route_line(line) {
        None => None,
        Some((key, d)) => {
            match table.lookup(key.as_slice()) {
                None => None,
                Some(cb) => Some((cb, d)),
            }
        },
    }
}

} // verus!
