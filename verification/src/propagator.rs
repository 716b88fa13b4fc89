//! The propagation header: a span's identity and sampling decision as four
//! decimal fields separated by colons,
//! `trace_id:span_id:parent_span_id:sampled_flag`.

use vstd::prelude::*;
use vstd::string::StringExecFns;
use crate::decimal::{
    decimal, is_numeral, lemma_parse_decimal_of_decimal, parse_decimal, push_decimal,
    unsigned_part, DecimalScan,
};
use crate::ids::{SpanId, TraceId};

verus! {

/// The fields of `s`: the stretches of text between its colons, in order.
/// Text without a colon is one field, and so is the empty text.
pub open spec fn fields(s: Seq<char>) -> Seq<Seq<char>>
    decreases s.len(),
{
    if s.len() == 0 {
        seq![Seq::<char>::empty()]
    } else {
        let before = fields(s.drop_last());
        if s.last() == ':' {
            before.push(Seq::<char>::empty())
        } else {
            before.update(before.len() - 1, before.last().push(s.last()))
        }
    }
}

/// The largest number that the field at `index` may denote: the span id is a
/// 64-bit value, the trace id a 128-bit one.
pub open spec fn field_bound(index: int) -> nat {
    if index == 1 {
        u64::MAX as nat
    } else {
        u128::MAX as nat
    }
}

/// `header` is a propagation header that can be read: exactly four fields,
/// each of them a numeral, the first within 128 bits and the second within 64.
pub open spec fn well_formed(header: Seq<char>) -> bool {
    let f = fields(header);
    &&& f.len() == 4
    &&& parse_decimal(f[0], field_bound(0)) is Some
    &&& parse_decimal(f[1], field_bound(1)) is Some
    &&& is_numeral(f[2])
    &&& is_numeral(f[3])
}

/// What a received header yields: the trace id of its first field and the
/// span id of its second; the zero pair for a header that is not well formed.
pub open spec fn decoded(header: Seq<char>) -> (TraceId, SpanId) {
    if well_formed(header) {
        let f = fields(header);
        (
            TraceId(parse_decimal(f[0], field_bound(0))->0 as u128),
            SpanId(parse_decimal(f[1], field_bound(1))->0 as u64),
        )
    } else {
        (TraceId(0), SpanId(0))
    }
}

/// The header for a span: the three identifiers as shortest numerals, `0`
/// for an absent parent, then `1` for a sampled span and `0` for another.
pub open spec fn encoded(
    trace_id: TraceId,
    span_id: SpanId,
    parent_span_id: Option<SpanId>,
    sampled: bool,
) -> Seq<char> {
    let parent: nat = match parent_span_id {
        Some(p) => p.0 as nat,
        None => 0,
    };
    let flag: nat = if sampled {
        1
    } else {
        0
    };
    joined(decimal(trace_id.0 as nat), decimal(span_id.0 as nat), decimal(parent), decimal(flag))
}

/// Four fields with a colon between each two.
pub open spec fn joined(a: Seq<char>, b: Seq<char>, c: Seq<char>, d: Seq<char>) -> Seq<char> {
    a + seq![':'] + b + seq![':'] + c + seq![':'] + d
}

/// No character of `s` is a colon.
pub open spec fn colon_free(s: Seq<char>) -> bool {
    forall|i: int| 0 <= i < s.len() ==> #[trigger] s[i] != ':'
}

/// There is always at least one field.
pub proof fn lemma_fields_nonempty(s: Seq<char>)
    ensures
        fields(s).len() >= 1,
    decreases s.len(),
{
    if s.len() > 0 {
        lemma_fields_nonempty(s.drop_last());
    }
}

/// Text without a colon, put behind `s`, lengthens the last field of `s`.
pub proof fn lemma_fields_extend(s: Seq<char>, t: Seq<char>)
    requires
        colon_free(t),
    ensures
        fields(s).len() >= 1,
        fields(s + t) == fields(s).update(fields(s).len() - 1, fields(s).last() + t),
    decreases t.len(),
{
    lemma_fields_nonempty(s);
    let f = fields(s);
    if t.len() == 0 {
        assert(s + t =~= s);
        assert(f.last() + t =~= f.last());
        assert(f.update(f.len() - 1, f.last()) =~= f);
    } else {
        let front = t.drop_last();
        assert(colon_free(front)) by {
            assert forall|i: int| 0 <= i < front.len() implies #[trigger] front[i] != ':' by {
                assert(t[i] != ':');
            }
        }
        lemma_fields_extend(s, front);
        assert((s + t).drop_last() =~= s + front);
        assert((s + t).last() == t.last());
        assert(t[t.len() - 1] != ':');
        assert(f.last() + front + seq![t.last()] =~= f.last() + t);
        assert((f.last() + front).push(t.last()) =~= f.last() + t);
        assert(fields(s + t) =~= f.update(f.len() - 1, f.last() + t));
    }
}

/// A colon put behind `s` opens a new, empty field.
pub proof fn lemma_fields_colon(s: Seq<char>)
    ensures
        fields(s.push(':')) == fields(s).push(Seq::<char>::empty()),
{
    assert(s.push(':').drop_last() =~= s);
}

/// Four colon-free texts joined by colons are split into those four again.
pub proof fn lemma_fields_of_joined(a: Seq<char>, b: Seq<char>, c: Seq<char>, d: Seq<char>)
    requires
        colon_free(a),
        colon_free(b),
        colon_free(c),
        colon_free(d),
    ensures
        fields(joined(a, b, c, d)) == seq![a, b, c, d],
{
    let e = Seq::<char>::empty();
    lemma_fields_extend(e, a);
    assert(e + a =~= a);
    assert(fields(e) =~= seq![e]);
    assert(fields(a) =~= seq![a]);
    let s1 = a.push(':');
    lemma_fields_colon(a);
    lemma_fields_extend(s1, b);
    assert(fields(s1 + b) =~= seq![a, b]);
    let s2 = (s1 + b).push(':');
    lemma_fields_colon(s1 + b);
    lemma_fields_extend(s2, c);
    assert(fields(s2 + c) =~= seq![a, b, c]);
    let s3 = (s2 + c).push(':');
    lemma_fields_colon(s2 + c);
    lemma_fields_extend(s3, d);
    assert(fields(s3 + d) =~= seq![a, b, c, d]);
    assert(s3 + d =~= joined(a, b, c, d));
}

/// A numeral holds no colon.
pub proof fn lemma_numeral_colon_free(s: Seq<char>)
    requires
        is_numeral(s),
    ensures
        colon_free(s),
{
    let body = unsigned_part(s);
    assert forall|i: int| 0 <= i < s.len() implies #[trigger] s[i] != ':' by {
        if s[0] == '+' {
            if i > 0 {
                assert(body[i - 1] == s[i]);
            }
        } else {
            assert(body[i] == s[i]);
        }
    }
}

/// Reading recovers the first two fields exactly: a header of four numerals,
/// the first denoting a trace id `t` and the second a span id `s`, is decoded
/// to `t` and `s`, whatever the third and fourth numerals are.
pub proof fn lemma_decode_joined(a: Seq<char>, b: Seq<char>, c: Seq<char>, d: Seq<char>)
    requires
        parse_decimal(a, u128::MAX as nat) is Some,
        parse_decimal(b, u64::MAX as nat) is Some,
        is_numeral(c),
        is_numeral(d),
    ensures
        well_formed(joined(a, b, c, d)),
        decoded(joined(a, b, c, d)).0.0 == parse_decimal(a, u128::MAX as nat)->0,
        decoded(joined(a, b, c, d)).1.0 == parse_decimal(b, u64::MAX as nat)->0,
{
    lemma_numeral_colon_free(a);
    lemma_numeral_colon_free(b);
    lemma_numeral_colon_free(c);
    lemma_numeral_colon_free(d);
    lemma_fields_of_joined(a, b, c, d);
}

/// A malformed header is decoded to the zero pair: one with fewer or more
/// than four fields, and one with a field that is no numeral.
pub proof fn lemma_decode_malformed(header: Seq<char>)
    requires
        fields(header).len() != 4 || exists|i: int|
            0 <= i < 4 && !is_numeral(#[trigger] fields(header)[i]),
    ensures
        decoded(header) == (TraceId(0), SpanId(0)),
{
}

/// A header whose trace id does not fit 128 bits, or whose span id does not
/// fit 64 bits, is decoded to the zero pair.
pub proof fn lemma_decode_out_of_range(header: Seq<char>)
    requires
        fields(header).len() == 4,
        parse_decimal(fields(header)[0], u128::MAX as nat) is None || parse_decimal(
            fields(header)[1],
            u64::MAX as nat,
        ) is None,
    ensures
        decoded(header) == (TraceId(0), SpanId(0)),
{
}

/// A header of fewer than three characters has fewer than four fields, so
/// it is decoded to the zero pair; the empty header is one of them.
pub proof fn lemma_decode_short(header: Seq<char>)
    requires
        header.len() < 3,
    ensures
        decoded(header) == (TraceId(0), SpanId(0)),
{
    lemma_fields_len_bound(header);
}

/// A header without a colon is a single field, so it is decoded to the zero
/// pair.
pub proof fn lemma_decode_no_colon(header: Seq<char>)
    requires
        colon_free(header),
    ensures
        decoded(header) == (TraceId(0), SpanId(0)),
{
    lemma_fields_extend(Seq::<char>::empty(), header);
    assert(Seq::<char>::empty() + header =~= header);
}

/// Text has at most one field more than it has characters.
pub proof fn lemma_fields_len_bound(s: Seq<char>)
    ensures
        1 <= fields(s).len() <= s.len() + 1,
    decreases s.len(),
{
    if s.len() > 0 {
        lemma_fields_len_bound(s.drop_last());
    }
}

/// Round trip: the header written for a span has exactly four fields and is
/// decoded to that span's trace id and span id.
pub proof fn lemma_decode_encoded(
    trace_id: TraceId,
    span_id: SpanId,
    parent_span_id: Option<SpanId>,
    sampled: bool,
)
    ensures
        fields(encoded(trace_id, span_id, parent_span_id, sampled)).len() == 4,
        well_formed(encoded(trace_id, span_id, parent_span_id, sampled)),
        decoded(encoded(trace_id, span_id, parent_span_id, sampled)) == (trace_id, span_id),
{
    let parent: nat = match parent_span_id {
        Some(p) => p.0 as nat,
        None => 0,
    };
    let flag: nat = if sampled {
        1
    } else {
        0
    };
    lemma_parse_decimal_of_decimal(trace_id.0 as nat, u128::MAX as nat);
    lemma_parse_decimal_of_decimal(span_id.0 as nat, u64::MAX as nat);
    lemma_parse_decimal_of_decimal(parent, u64::MAX as nat);
    lemma_parse_decimal_of_decimal(flag, 1);
    lemma_decode_joined(
        decimal(trace_id.0 as nat),
        decimal(span_id.0 as nat),
        decimal(parent),
        decimal(flag),
    );
}

/// Writes the propagation header for a span.
pub fn jaeger_header(
    trace_id: TraceId,
    span_id: SpanId,
    parent_span_id: Option<SpanId>,
    sampled: bool,
) -> (header: String)
    ensures
        header@ == encoded(trace_id, span_id, parent_span_id, sampled),
{
    proof {
        reveal_strlit(":");
    }
    let parent: u64 = match parent_span_id {
        Some(p) => p.0,
        None => 0,
    };
    let flag: u128 = if sampled {
        1
    } else {
        0
    };
    let mut header = String::new();
    push_decimal(&mut header, trace_id.0);
    header.append(":");
    push_decimal(&mut header, span_id.0 as u128);
    header.append(":");
    push_decimal(&mut header, parent as u128);
    header.append(":");
    push_decimal(&mut header, flag);
    assert(header@ =~= encoded(trace_id, span_id, parent_span_id, sampled));
    header
}

/// Reads a received propagation header. It never fails: a header that is not
/// well formed gives the zero pair.
pub fn parse_jaeger_trace_id(header_value: &str) -> (ids: (TraceId, SpanId))
    ensures
        ids == decoded(header_value@),
{
    // Colons seen so far, counted up to four.
    let mut index: usize = 0;
    // The fields before the current one were all as `well_formed` asks.
    let mut ok: bool = true;
    let mut trace: u128 = 0;
    let mut span: u64 = 0;
    let mut scan = DecimalScan::start(Ghost(field_bound(0)));
    for c in it: header_value.chars()
        invariant
            it.seq() == header_value@,
            index <= 4,
            fields(header_value@.take(it.index())).len() >= 1,
            index < 4 ==> fields(header_value@.take(it.index())).len() == index + 1,
            index == 4 ==> fields(header_value@.take(it.index())).len() > 4,
            index < 4 ==> scan.tracks(
                fields(header_value@.take(it.index()))[index as int],
                field_bound(index as int),
            ),
            index < 4 ==> ok == ({
                let f = fields(header_value@.take(it.index()));
                &&& (1 <= index ==> parse_decimal(f[0], field_bound(0)) is Some)
                &&& (2 <= index ==> parse_decimal(f[1], field_bound(1)) is Some)
                &&& (3 <= index ==> is_numeral(f[2]))
            }),
            ok && 1 <= index < 4 ==> trace as nat == parse_decimal(
                fields(header_value@.take(it.index()))[0],
                field_bound(0),
            )->0,
            ok && 2 <= index < 4 ==> span as nat == parse_decimal(
                fields(header_value@.take(it.index()))[1],
                field_bound(1),
            )->0,
    {
        let ghost prefix = header_value@.take(it.index());
        let ghost f = fields(prefix);
        let ghost next = header_value@.take(it.index() + 1);
        assert(next.drop_last() =~= prefix);
        assert(next.last() == c);
        if c == ':' {
            assert(fields(next) == f.push(Seq::<char>::empty()));
            if index == 0 {
                match scan.finish(Ghost(f[0]), Ghost(field_bound(0))) {
                    Some(v) => {
                        trace = v;
                    },
                    None => {
                        ok = false;
                    },
                }
            } else if index == 1 {
                match scan.finish(Ghost(f[1]), Ghost(field_bound(1))) {
                    Some(v) => {
                        span = v as u64;
                    },
                    None => {
                        ok = false;
                    },
                }
            } else if index == 2 {
                if !scan.is_numeral(Ghost(f[2]), Ghost(field_bound(2))) {
                    ok = false;
                }
            }
            if index < 4 {
                index = index + 1;
            }
            scan = DecimalScan::start(Ghost(field_bound(index as int)));
        } else {
            assert(fields(next) == f.update(f.len() - 1, f.last().push(c)));
            if index == 1 {
                scan.feed(c, u64::MAX as u128, Ghost(f[1]));
            } else if index < 4 {
                scan.feed(c, u128::MAX, Ghost(f[index as int]));
            }
        }
    }
    assert(header_value@.take(header_value@.len() as int) =~= header_value@);
    let ghost f = fields(header_value@);
    if index == 3 && ok && scan.is_numeral(Ghost(f[3]), Ghost(field_bound(3))) {
        (TraceId(trace), SpanId(span))
    } else {
        (TraceId(0), SpanId(0))
    }
}

} // verus!
