//! Laws of the engine: statements that hold of every transaction, every
//! change and every engine state, proved from the definitions.

use crate::protobuf::{
    decode, entry_of, field_at, skip_from, stored, walk, Fields, MAX_ERRORS, MAX_FIELDS, Skip, Step,
    ValueView,
};
use crate::server::{direction_headers, header_value, lemma_with_length, with_body_length};
use crate::state::{
    engine_verdict, evaluate, first_full, first_named, full_at, head_candidates, heads_in_order,
    merge_all, merge_one, modified, modified_body, opened_before, same_name, BreakpointMatchResult,
    BreakpointView, HeadEvent, ModificationView,
};
use crate::text::decimal;
use crate::cert::{
    after_request, key_of, leaf_at, leaf_of, lemma_leaf_at_bound, lemma_leaf_at_push, LeafView,
};
use crate::traffic::{
    closing_size_of, decoded_path, is_encoded_path, HeaderView, TrafficView, TransactionState,
};
use vstd::prelude::*;

verus! {

/// The headers `a` and `b` have the same names at the same places.
pub open spec fn same_names(a: Seq<HeaderView>, b: Seq<HeaderView>) -> bool {
    a.len() == b.len() && forall|i: int| 0 <= i < a.len() ==> (#[trigger] a[i]).name == b[i].name
}

/// Every name among the first `n` headers of a change is the name of a
/// header.
pub open spec fn all_named(
    headers: Seq<HeaderView>,
    patch: Seq<(Seq<char>, Seq<char>)>,
    n: int,
) -> bool {
    forall|k: int| 0 <= k < n ==> first_named(headers, (#[trigger] patch[k]).0, 0) is Some
}

/// The last of the first `m` headers of a change that is written to the
/// header at `j`.
pub open spec fn last_writer(
    headers: Seq<HeaderView>,
    patch: Seq<(Seq<char>, Seq<char>)>,
    m: int,
    j: int,
) -> Option<int>
    decreases m,
{
    if m <= 0 {
        None
    } else if first_named(headers, patch[m - 1].0, 0) == Some(j) {
        Some(m - 1)
    } else {
        last_writer(headers, patch, m - 1, j)
    }
}

/// The headers with the value that was last written to each of them.
pub open spec fn overlay(
    headers: Seq<HeaderView>,
    patch: Seq<(Seq<char>, Seq<char>)>,
    m: int,
) -> Seq<HeaderView> {
    Seq::new(
        headers.len(),
        |j: int|
            HeaderView {
                name: headers[j].name,
                value: match last_writer(headers, patch, m, j) {
                    Some(k) => patch[k].1,
                    None => headers[j].value,
                },
            },
    )
}

/// Where the first header of a name is found.
pub proof fn lemma_first_named(headers: Seq<HeaderView>, name: Seq<char>, from: int)
    requires
        0 <= from,
    ensures
        first_named(headers, name, from) matches Some(i) ==> from <= i < headers.len() && same_name(
            headers[i].name,
            name,
        ),
    decreases headers.len() - from,
{
    if from < headers.len() && !same_name(headers[from].name, name) {
        lemma_first_named(headers, name, from + 1);
    }
}

/// The first header of a name is found by the names alone.
pub proof fn lemma_first_named_by_names(
    a: Seq<HeaderView>,
    b: Seq<HeaderView>,
    name: Seq<char>,
    from: int,
)
    requires
        same_names(a, b),
        0 <= from,
    ensures
        first_named(a, name, from) == first_named(b, name, from),
    decreases a.len() - from,
{
    if from < a.len() {
        assert(a[from].name == b[from].name);
        if !same_name(a[from].name, name) {
            lemma_first_named_by_names(a, b, name, from + 1);
        }
    }
}

/// A header that is added at the end takes no place from an earlier one, and
/// is the first of its name where none was.
pub proof fn lemma_first_named_push(
    headers: Seq<HeaderView>,
    added: HeaderView,
    name: Seq<char>,
    from: int,
)
    requires
        0 <= from <= headers.len(),
    ensures
        first_named(headers, name, from) is Some ==> first_named(headers.push(added), name, from)
            == first_named(headers, name, from),
        first_named(headers, name, from) is None && same_name(added.name, name) ==> first_named(
            headers.push(added),
            name,
            from,
        ) == Some(headers.len() as int),
    decreases headers.len() - from,
{
    let longer = headers.push(added);
    if from < headers.len() {
        assert(longer[from] == headers[from]);
        if !same_name(headers[from].name, name) {
            lemma_first_named_push(headers, added, name, from + 1);
        }
    } else {
        assert(longer[from] == added);
    }
}

/// What the merge of one header does: the header of that name is found
/// afterwards and has the new value, every name that was found before is
/// found at the same place, and no other header has changed.
pub proof fn lemma_merge_one(headers: Seq<HeaderView>, name: Seq<char>, value: Seq<char>)
    ensures
        ({
            let after = merge_one(headers, name, value);
            &&& after.len() >= headers.len()
            &&& first_named(after, name, 0) matches Some(j) && 0 <= j < after.len() && after[j].value
                == value && forall|i: int|
                0 <= i < headers.len() && i != j ==> #[trigger] after[i] == headers[i]
            &&& forall|x: Seq<char>|
                first_named(headers, x, 0) is Some ==> #[trigger] first_named(after, x, 0)
                    == first_named(headers, x, 0)
        }),
{
    let after = merge_one(headers, name, value);
    lemma_first_named(headers, name, 0);
    match first_named(headers, name, 0) {
        Some(i) => {
            assert(same_names(headers, after));
            assert forall|x: Seq<char>| true implies #[trigger] first_named(after, x, 0)
                == first_named(headers, x, 0) by {
                lemma_first_named_by_names(after, headers, x, 0);
            }
        },
        None => {
            let added = HeaderView { name, value };
            lemma_first_named_push(headers, added, name, 0);
            assert forall|x: Seq<char>| first_named(headers, x, 0) is Some implies #[trigger] first_named(
                after,
                x,
                0,
            ) == first_named(headers, x, 0) by {
                lemma_first_named_push(headers, added, x, 0);
            }
        },
    }
}

/// Where every name of a change is found, merging the change sets each
/// header to the value that the change writes to it last.
pub proof fn lemma_merge_all_named(
    headers: Seq<HeaderView>,
    patch: Seq<(Seq<char>, Seq<char>)>,
    n: int,
    m: int,
)
    requires
        0 <= m <= n <= patch.len(),
        all_named(headers, patch, n),
    ensures
        merge_all(headers, patch, m) == overlay(headers, patch, m),
    decreases m,
{
    if m == 0 {
        assert(merge_all(headers, patch, m) =~= overlay(headers, patch, m));
    } else {
        lemma_merge_all_named(headers, patch, n, m - 1);
        let before = merge_all(headers, patch, m - 1);
        let entry = patch[m - 1];
        assert(same_names(before, headers));
        lemma_first_named_by_names(before, headers, entry.0, 0);
        lemma_first_named(headers, entry.0, 0);
        assert(first_named(headers, entry.0, 0) is Some);
        let i = first_named(headers, entry.0, 0)->0;
        let after = merge_one(before, entry.0, entry.1);
        assert(after =~= overlay(headers, patch, m));
    }
}

/// Two lists of headers in which the names of a change are found at the
/// same places have the same last writers.
pub proof fn lemma_last_writer_same(
    a: Seq<HeaderView>,
    b: Seq<HeaderView>,
    patch: Seq<(Seq<char>, Seq<char>)>,
    m: int,
    j: int,
)
    requires
        0 <= m <= patch.len(),
        forall|k: int| 0 <= k < m ==> first_named(a, (#[trigger] patch[k]).0, 0) == first_named(
            b,
            patch[k].0,
            0,
        ),
    ensures
        last_writer(a, patch, m, j) == last_writer(b, patch, m, j),
    decreases m,
{
    if m > 0 {
        assert(first_named(a, patch[m - 1].0, 0) == first_named(b, patch[m - 1].0, 0));
        lemma_last_writer_same(a, b, patch, m - 1, j);
    }
}

/// A last writer is one of the headers of the change, and writes to the
/// header that it is the last writer of.
pub proof fn lemma_last_writer(
    headers: Seq<HeaderView>,
    patch: Seq<(Seq<char>, Seq<char>)>,
    m: int,
    j: int,
)
    requires
        0 <= m <= patch.len(),
    ensures
        last_writer(headers, patch, m, j) matches Some(k) ==> 0 <= k < m && first_named(
            headers,
            patch[k].0,
            0,
        ) == Some(j),
    decreases m,
{
    if m > 0 && first_named(headers, patch[m - 1].0, 0) != Some(j) {
        lemma_last_writer(headers, patch, m - 1, j);
    }
}

/// After a change is merged, every name of it is found, and each header
/// has the value that the change writes to it last.
pub proof fn lemma_merged_is_settled(
    headers: Seq<HeaderView>,
    patch: Seq<(Seq<char>, Seq<char>)>,
    n: int,
)
    requires
        0 <= n <= patch.len(),
    ensures
        all_named(merge_all(headers, patch, n), patch, n),
        forall|j: int|
            0 <= j < merge_all(headers, patch, n).len() ==> (#[trigger] last_writer(
                merge_all(headers, patch, n),
                patch,
                n,
                j,
            ) matches Some(k) ==> merge_all(headers, patch, n)[j].value == patch[k].1),
    decreases n,
{
    if n > 0 {
        lemma_merged_is_settled(headers, patch, n - 1);
        let before = merge_all(headers, patch, n - 1);
        let entry = patch[n - 1];
        let after = merge_all(headers, patch, n);
        assert(after == merge_one(before, entry.0, entry.1));
        lemma_merge_one(before, entry.0, entry.1);
        let at = first_named(after, entry.0, 0)->0;
        assert forall|k: int| 0 <= k < n implies first_named(after, (#[trigger] patch[k]).0, 0) is Some by {
            if k < n - 1 {
                assert(first_named(before, patch[k].0, 0) is Some);
                assert(first_named(after, patch[k].0, 0) == first_named(before, patch[k].0, 0));
            }
        }
        assert forall|k: int| 0 <= k < n - 1 implies first_named(after, (#[trigger] patch[k]).0, 0)
            == first_named(before, patch[k].0, 0) by {
            assert(first_named(before, patch[k].0, 0) is Some);
        }
        assert forall|j: int| 0 <= j < after.len() implies (#[trigger] last_writer(after, patch, n, j) matches Some(
            k,
        ) ==> after[j].value == patch[k].1) by {
            if first_named(after, entry.0, 0) == Some(j) {
            } else {
                lemma_last_writer_same(after, before, patch, n - 1, j);
                lemma_last_writer(before, patch, n - 1, j);
                if last_writer(before, patch, n - 1, j) is Some {
                    let k = last_writer(before, patch, n - 1, j)->0;
                    lemma_first_named(before, patch[k].0, 0);
                    assert(j < before.len());
                    assert(after[j] == before[j]);
                }
            }
        }
    }
}

/// Merging the headers of a change twice comes to the same as merging them
/// once.
pub proof fn lemma_merge_all_idempotent(headers: Seq<HeaderView>, patch: Seq<(Seq<char>, Seq<char>)>)
    ensures
        merge_all(merge_all(headers, patch, patch.len() as int), patch, patch.len() as int)
            == merge_all(headers, patch, patch.len() as int),
{
    let n = patch.len() as int;
    let once = merge_all(headers, patch, n);
    lemma_merged_is_settled(headers, patch, n);
    lemma_merge_all_named(once, patch, n, n);
    assert(overlay(once, patch, n) =~= once);
}

/// A change that is merged twice into a suspended transaction leaves the
/// transaction and its body as the change merged once does: what goes on
/// after the pause does not depend on how often the same change was sent.
pub proof fn lemma_modify_idempotent(t: TrafficView, body: Option<Seq<u8>>, m: ModificationView)
    ensures
        modified(modified(t, m), m) == modified(t, m),
        modified_body(modified_body(body, m), m) == modified_body(body, m),
{
    if m.headers is Some {
        if t.req_headers is Some {
            lemma_merge_all_idempotent(t.req_headers->0, m.headers->0);
        }
        if t.res_headers is Some {
            lemma_merge_all_idempotent(t.res_headers->0, m.headers->0);
        }
    }
}

/// The heads of an engine come in order: each gid that the engine has given
/// out was opened by exactly one head, and every update of a gid comes
/// after the head that opened it.
pub proof fn lemma_heads_in_order(events: Seq<HeadEvent>, next: u64, g: u64)
    requires
        heads_in_order(events, next),
        g < next,
    ensures
        exists|i: int|
            0 <= i < events.len() && #[trigger] events[i] == HeadEvent::Opened(g) && (forall|j: int|
                0 <= j < events.len() && j != i ==> #[trigger] events[j] != HeadEvent::Opened(g)) && (
            forall|j: int|
                0 <= j < events.len() && #[trigger] events[j] == HeadEvent::Updated(g) ==> i < j),
{
    assert(opened_before(events, g, events.len() as int));
    let i = choose|i: int|
        0 <= i < events.len() && i < events.len() && #[trigger] events[i] == HeadEvent::Opened(g);
    assert forall|j: int| 0 <= j < events.len() && j != i implies #[trigger] events[j]
        != HeadEvent::Opened(g) by {
        if events[j] == HeadEvent::Opened(g) {
            assert(events[i] is Opened && events[j] is Opened);
            assert(events[i].gid() == events[j].gid());
        }
    }
    assert forall|j: int| 0 <= j < events.len() && #[trigger] events[j] == HeadEvent::Updated(
        g,
    ) implies i < j by {
        assert(events[j] is Updated);
        assert(opened_before(events, events[j].gid(), j));
        let w = choose|w: int| 0 <= w < j && w < events.len() && #[trigger] events[w] == HeadEvent::Opened(g);
        if w != i {
            assert(events[w] != HeadEvent::Opened(g));
        }
    }
}

/// A transaction that goes on after a pause tells the length of its body:
/// where it is open and has headers in its direction, the first header
/// named `content-length` holds the length of the body that goes on, in
/// decimal.
pub proof fn lemma_resumed_length(t: TrafficView, request: bool, len: nat)
    requires
        !t.terminal(),
        direction_headers(t, request) is Some,
    ensures
        header_value(
            direction_headers(with_body_length(t, request, len), request),
            "content-length"@,
        ) == decimal(len),
{
    lemma_with_length(direction_headers(t, request)->0, len);
}

/// The gids of an engine rise: of two heads that open transactions, the
/// later one has the greater gid.
pub proof fn lemma_gids_rise(events: Seq<HeadEvent>, next: u64, i: int, j: int)
    requires
        heads_in_order(events, next),
        0 <= i < j < events.len(),
        events[i] is Opened,
        events[j] is Opened,
    ensures
        events[i].gid() < events[j].gid(),
{
}

/// The first rule that matches in full is found exactly where one is
/// there.
pub proof fn lemma_first_full(
    rules: Seq<BreakpointView>,
    tx: TrafficView,
    traffic_type: Seq<char>,
    from: int,
)
    requires
        0 <= from,
    ensures
        match first_full(rules, tx, traffic_type, from) {
            Some(i) => from <= i && full_at(rules, tx, traffic_type, i) && forall|j: int|
                from <= j < i ==> !full_at(rules, tx, traffic_type, j),
            None => forall|j: int| from <= j ==> !full_at(rules, tx, traffic_type, j),
        },
    decreases rules.len() - from,
{
    if from < rules.len() && !full_at(rules, tx, traffic_type, from) {
        lemma_first_full(rules, tx, traffic_type, from + 1);
    }
}

/// Every rule among the candidates is switched on and matches on the head
/// only.
pub proof fn lemma_head_candidates(
    rules: Seq<BreakpointView>,
    tx: TrafficView,
    traffic_type: Seq<char>,
    n: int,
)
    requires
        0 <= n <= rules.len(),
    ensures
        forall|k: int|
            0 <= k < head_candidates(rules, tx, traffic_type, n).len() ==> {
                let c = #[trigger] head_candidates(rules, tx, traffic_type, n)[k];
                c.enabled && evaluate(c, tx, traffic_type) == BreakpointMatchResult::HeaderOnlyMatch
            },
    decreases n,
{
    if n > 0 {
        lemma_head_candidates(rules, tx, traffic_type, n - 1);
    }
}

/// The verdict over all rules is the strongest one. It is a full match
/// exactly where a rule that is switched on matches in full, and then it
/// names the first such rule alone. Else it is a match on the head, with
/// candidates that are all switched on and match on the head only. While
/// the tool is switched off there is no verdict.
pub proof fn lemma_strongest_verdict(
    rules: Seq<BreakpointView>,
    tool_enabled: bool,
    tx: TrafficView,
    traffic_type: Seq<char>,
)
    ensures
        !tool_enabled ==> engine_verdict(rules, tool_enabled, tx, traffic_type) is None,
        tool_enabled ==> ((exists|i: int| full_at(rules, tx, traffic_type, i)) <==> (engine_verdict(
            rules,
            tool_enabled,
            tx,
            traffic_type,
        ) matches Some(v) && v.1 == BreakpointMatchResult::FullMatch)),
        engine_verdict(rules, tool_enabled, tx, traffic_type) matches Some(v) ==> v.0.len() > 0 && (
        v.1 == BreakpointMatchResult::FullMatch ==> v.0.len() == 1 && v.0[0].enabled && evaluate(
            v.0[0],
            tx,
            traffic_type,
        ) == BreakpointMatchResult::FullMatch) && (v.1 != BreakpointMatchResult::FullMatch ==> v.1
            == BreakpointMatchResult::HeaderOnlyMatch && forall|k: int|
            0 <= k < v.0.len() ==> (#[trigger] v.0[k]).enabled && evaluate(v.0[k], tx, traffic_type)
                == BreakpointMatchResult::HeaderOnlyMatch),
{
    lemma_first_full(rules, tx, traffic_type, 0);
    lemma_head_candidates(rules, tx, traffic_type, rules.len() as int);
    if tool_enabled {
        match first_full(rules, tx, traffic_type, 0) {
            Some(i) => {
                assert(full_at(rules, tx, traffic_type, i));
            },
            None => {
                assert forall|i: int| !full_at(rules, tx, traffic_type, i) by {
                    if i < 0 {
                    }
                }
            },
        }
    }
}

/// The fields of a message are in order: no field number is kept twice,
/// every number lies between 1 and 2^29 - 1, and every number has at least
/// one value.
pub open spec fn fields_in_order(fields: Fields) -> bool {
    &&& forall|i: int, j: int|
        0 <= i < j < fields.len() ==> (#[trigger] fields[i]).0 != (#[trigger] fields[j]).0
    &&& forall|i: int|
        0 <= i < fields.len() ==> 0 < (#[trigger] fields[i]).0 < 536870912 && fields[i].1.len() > 0
}

/// Where an entry is found.
pub proof fn lemma_entry_of(fields: Fields, number: u32, from: int)
    requires
        0 <= from,
    ensures
        match entry_of(fields, number, from) {
            Some(i) => from <= i < fields.len() && fields[i].0 == number,
            None => forall|j: int| from <= j < fields.len() ==> (#[trigger] fields[j]).0 != number,
        },
    decreases fields.len() - from,
{
    if from < fields.len() && fields[from].0 != number {
        lemma_entry_of(fields, number, from + 1);
    }
}

/// A value that is stored under a number in range keeps the fields in
/// order.
pub proof fn lemma_stored_in_order(fields: Fields, number: u32, value: ValueView)
    requires
        fields_in_order(fields),
        0 < number < 536870912,
    ensures
        fields_in_order(stored(fields, number, value)),
{
    lemma_entry_of(fields, number, 0);
    let after = stored(fields, number, value);
    match entry_of(fields, number, 0) {
        Some(at) => {
            assert forall|i: int, j: int| 0 <= i < j < after.len() implies (#[trigger] after[i]).0 != (
            #[trigger] after[j]).0 by {
                assert(after[i].0 == fields[i].0);
                assert(after[j].0 == fields[j].0);
            }
            assert forall|i: int| 0 <= i < after.len() implies 0 < (#[trigger] after[i]).0
                < 536870912 && after[i].1.len() > 0 by {
                assert(after[i].0 == fields[i].0);
                if i != at {
                    assert(after[i] == fields[i]);
                }
            }
        },
        None => {
            assert forall|i: int, j: int| 0 <= i < j < after.len() implies (#[trigger] after[i]).0 != (
            #[trigger] after[j]).0 by {
                if j < fields.len() {
                    assert(after[i] == fields[i] && after[j] == fields[j]);
                } else {
                    assert(after[i] == fields[i]);
                }
            }
            assert forall|i: int| 0 <= i < after.len() implies 0 < (#[trigger] after[i]).0
                < 536870912 && after[i].1.len() > 0 by {
                if i < fields.len() {
                    assert(after[i] == fields[i]);
                }
            }
        },
    }
}

/// The number of a field that is read lies in range.
pub proof fn lemma_field_number(data: Seq<u8>, pos: int)
    ensures
        field_at(data, pos) matches Step::Field(number, _, _) ==> 0 < number < 536870912,
{
}

/// The walk keeps the fields in order.
pub proof fn lemma_walk_in_order(data: Seq<u8>, pos: int, fields_left: nat, errors: nat, acc: Fields)
    requires
        fields_in_order(acc),
    ensures
        fields_in_order(walk(data, pos, fields_left, errors, acc)),
    decreases fields_left,
{
    if fields_left > 0 {
        lemma_field_number(data, pos);
        match field_at(data, pos) {
            Step::Field(number, value, next) => {
                lemma_stored_in_order(acc, number, value);
                lemma_walk_in_order(
                    data,
                    next,
                    (fields_left - 1) as nat,
                    0,
                    stored(acc, number, value),
                );
            },
            Step::Recovered(next) => {
                lemma_walk_in_order(data, next, (fields_left - 1) as nat, 0, acc);
            },
            Step::Error(p) => {
                if errors + 1 <= MAX_ERRORS {
                    match skip_from(data, p, 0) {
                        Skip::Found(q) => {
                            lemma_walk_in_order(data, q, (fields_left - 1) as nat, errors + 1, acc);
                        },
                        _ => {},
                    }
                }
            },
            _ => {},
        }
    }
}

/// Whatever the bytes of a message are, its fields are in order.
pub proof fn lemma_decode_in_order(data: Seq<u8>)
    ensures
        fields_in_order(decode(data)),
{
    lemma_walk_in_order(data, 0, MAX_FIELDS as nat, 0, Seq::empty());
}

/// A path from which every encoding suffix is taken off has none.
pub proof fn lemma_decoded_path(path: Seq<char>)
    ensures
        !is_encoded_path(decoded_path(path)),
    decreases path.len(),
{
    reveal_strlit(".enc.deflate");
    reveal_strlit(".enc.gz");
    reveal_strlit(".enc.br");
    reveal_strlit(".enc.zst");
    if path.len() >= 12 && path.subrange(path.len() - 12, path.len() as int) == ".enc.deflate"@ {
        lemma_decoded_path(path.subrange(0, path.len() - 12));
    } else if path.len() >= 7 && path.subrange(path.len() - 7, path.len() as int) == ".enc.gz"@ {
        lemma_decoded_path(path.subrange(0, path.len() - 7));
    } else if path.len() >= 7 && path.subrange(path.len() - 7, path.len() as int) == ".enc.br"@ {
        lemma_decoded_path(path.subrange(0, path.len() - 7));
    } else if path.len() >= 8 && path.subrange(path.len() - 8, path.len() as int) == ".enc.zst"@ {
        lemma_decoded_path(path.subrange(0, path.len() - 8));
    }
}

/// A transaction that is closed while it is open and has a status below
/// 400 is completed. It then holds the size that it was closed with, which
/// is the size of the decoded body where the spooled body was decoded, and
/// the file of its body is none that is still encoded.
pub proof fn lemma_completed(t: TrafficView, raw_size: u64, decoded_size: Option<u64>)
    requires
        !t.terminal(),
        t.status is Some,
        t.status->0 < 400,
    ensures
        ({
            let closed = t.finalized(closing_size_of(raw_size, decoded_size));
            &&& closed.transaction_state == TransactionState::Completed
            &&& decoded_size matches Some(n) ==> closed.res_body_size == Some(n)
            &&& decoded_size is None ==> closed.res_body_size == Some(raw_size)
            &&& closed.res_body_file matches Some(p) ==> !is_encoded_path(p)
        }),
{
    if t.res_body_file is Some {
        lemma_decoded_path(t.res_body_file->0);
    }
}

/// Authorities that are the same but for the letter case of the host are
/// answered with one leaf: once one of them has been asked for with a leaf
/// that could be made, both have that leaf, whatever is asked afterwards.
/// A leaf that could not be made leaves the kept leaves as they were.
pub proof fn lemma_one_leaf_per_authority(
    leaves: Seq<(Seq<char>, LeafView)>,
    first: Seq<char>,
    second: Seq<char>,
    minted: LeafView,
    again: Option<LeafView>,
)
    requires
        key_of(first) == key_of(second),
    ensures
        leaf_of(after_request(leaves, first, Some(minted)), first) is Some,
        leaf_of(after_request(leaves, first, Some(minted)), second) == leaf_of(
            after_request(leaves, first, Some(minted)),
            first,
        ),
        leaf_of(
            after_request(after_request(leaves, first, Some(minted)), second, again),
            second,
        ) == leaf_of(after_request(leaves, first, Some(minted)), first),
        after_request(leaves, first, None) == leaves,
{
    let key = key_of(first);
    let once = after_request(leaves, first, Some(minted));
    if leaf_at(leaves, key, 0) is None {
        lemma_found_at_end(leaves, (key, minted), 0);
    }
    assert(leaf_at(once, key, 0) is Some);
    if after_request(once, second, again) != once {
        lemma_leaf_at_push(once, (key_of(second), again->0), key, 0);
        lemma_leaf_at_bound(once, key, 0);
    }
}

/// A leaf that is added at the end where none had its key is found under
/// that key.
pub proof fn lemma_found_at_end(
    leaves: Seq<(Seq<char>, LeafView)>,
    added: (Seq<char>, LeafView),
    from: int,
)
    requires
        0 <= from <= leaves.len(),
        leaf_at(leaves, added.0, from) is None,
    ensures
        leaf_at(leaves.push(added), added.0, from) == Some(leaves.len() as int),
    decreases leaves.len() - from,
{
    let longer = leaves.push(added);
    if from < leaves.len() {
        assert(longer[from] == leaves[from]);
        lemma_found_at_end(leaves, added, from + 1);
    } else {
        assert(longer[from] == added);
    }
}

} // verus!
