use vstd::prelude::*;

use crate::text::{chars_of, is_white_space, push_char, trim_bounds, trim_end, trim_start, trimmed};

verus! {

/// 40 to the power 9: the first value that no 9-symbol callsign encodes to.
pub const CALLSIGN_LIMIT: u64 = 262144000000000;

/// Longest callsign that fits the 6-byte wire field.
pub const MAX_CALLSIGN_LEN: usize = 9;

/// The symbol at position `i` of the alphabet `" ABCDEFGHIJKLMNOPQRSTUVWXYZ0123456789-/."`.
pub open spec fn alpha(i: int) -> char {
    if 1 <= i <= 26 {
        (i + 64) as char
    } else if 27 <= i <= 36 {
        (i + 21) as char
    } else if i == 37 {
        '-'
    } else if i == 38 {
        '/'
    } else if i == 39 {
        '.'
    } else {
        ' '
    }
}

/// Position of `c` in the alphabet; characters outside it count as position 0.
pub open spec fn alpha_pos(c: char) -> int {
    if 'A' <= c <= 'Z' {
        c as int - 64
    } else if '0' <= c <= '9' {
        c as int - 21
    } else if c == '-' {
        37
    } else if c == '/' {
        38
    } else if c == '.' {
        39
    } else {
        0
    }
}

/// `c` is one of the 40 alphabet symbols.
pub open spec fn in_alphabet(c: char) -> bool {
    c == ' ' || alpha_pos(c) != 0
}

/// Big-endian unsigned value of a byte sequence.
pub open spec fn be_value(b: Seq<u8>) -> nat
    decreases b.len(),
{
    if b.len() == 0 {
        0
    } else {
        be_value(b.drop_last()) * 256 + b.last() as nat
    }
}

/// The first six bytes are all `0xFF`: the broadcast callsign.
pub open spec fn is_broadcast_field(b: Seq<u8>) -> bool {
    b.len() >= 6 && forall|i: int| 0 <= i < 6 ==> b[i] == 0xFF
}

/// The name of the broadcast callsign.
pub open spec fn broadcast_name() -> Seq<char> {
    seq!['A', 'L', 'L']
}

/// The padded form of the broadcast callsign, `" ALL      "`.
pub open spec fn broadcast_name_padded() -> Seq<char> {
    seq![' ', 'A', 'L', 'L', ' ', ' ', ' ', ' ', ' ', ' ']
}

/// Symbols of `v` in base 40, least significant first, until the value is used up.
pub open spec fn base40_symbols(v: nat) -> Seq<char>
    decreases v,
{
    if v == 0 {
        Seq::empty()
    } else {
        seq![alpha((v % 40) as int)] + base40_symbols(v / 40)
    }
}

/// The callsign that a 6-byte wire field (the first six bytes of `b`) holds.
pub open spec fn decoded(b: Seq<u8>) -> Seq<char> {
    if is_broadcast_field(b) {
        broadcast_name()
    } else if be_value(b.take(6)) >= CALLSIGN_LIMIT {
        Seq::empty()
    } else {
        base40_symbols(be_value(b.take(6)))
    }
}

/// Base-40 value of `t`, its first symbol the least significant.
pub open spec fn symbol_value(t: Seq<char>) -> nat
    decreases t.len(),
{
    if t.len() == 0 {
        0
    } else {
        alpha_pos(t[0]) as nat + 40 * symbol_value(t.drop_first())
    }
}

/// The part of a callsign that is encoded: trimmed, then cut to nine characters.
pub open spec fn callsign_field(s: Seq<char>) -> Seq<char> {
    let t = trimmed(s);
    if t.len() <= 9 {
        t
    } else {
        t.take(9)
    }
}

/// Six big-endian bytes of `v`.
pub open spec fn be_bytes6(v: nat) -> Seq<u8> {
    seq![
        (v / 0x100_0000_0000 % 256) as u8,
        (v / 0x1_0000_0000 % 256) as u8,
        (v / 0x100_0000 % 256) as u8,
        (v / 0x1_0000 % 256) as u8,
        (v / 0x100 % 256) as u8,
        (v % 256) as u8,
    ]
}

/// The 6-byte wire field of callsign `s`.
pub open spec fn encoded(s: Seq<char>) -> Seq<u8> {
    if s == broadcast_name() || s == broadcast_name_padded() {
        seq![0xFFu8, 0xFF, 0xFF, 0xFF, 0xFF, 0xFF]
    } else {
        be_bytes6(symbol_value(callsign_field(s)))
    }
}

pub open spec fn pow40(n: nat) -> nat
    decreases n,
{
    if n == 0 {
        1
    } else {
        40 * pow40((n - 1) as nat)
    }
}

fn alpha_char(i: u64) -> (c: char)
    requires
        i < 40,
    ensures
        c == alpha(i as int),
{
    let b = i as u8;
    if 1 <= b && b <= 26 {
        (b + 64) as char
    } else if 27 <= b && b <= 36 {
        (b + 21) as char
    } else if b == 37 {
        '-'
    } else if b == 38 {
        '/'
    } else if b == 39 {
        '.'
    } else {
        ' '
    }
}

fn alpha_index(c: char) -> (r: u64)
    ensures
        r as int == alpha_pos(c),
        r < 40,
{
    if 'A' <= c && c <= 'Z' {
        (c as u32 - 64) as u64
    } else if '0' <= c && c <= '9' {
        (c as u32 - 21) as u64
    } else if c == '-' {
        37
    } else if c == '/' {
        38
    } else if c == '.' {
        39
    } else {
        0
    }
}

proof fn lemma_be_value_step(b: Seq<u8>, i: int)
    requires
        0 <= i < b.len(),
    ensures
        be_value(b.take(i + 1)) == be_value(b.take(i)) * 256 + b[i] as nat,
{
    assert(b.take(i + 1).drop_last() =~= b.take(i));
}

pub open spec fn pow256(n: nat) -> nat
    decreases n,
{
    if n == 0 {
        1
    } else {
        256 * pow256((n - 1) as nat)
    }
}

proof fn lemma_pow256_5()
    ensures
        pow256(5) == 0x100_0000_0000,
{
    reveal_with_fuel(pow256, 6);
}

proof fn lemma_pow256_monotone(a: nat, b: nat)
    requires
        a <= b,
    ensures
        pow256(a) <= pow256(b),
    decreases b,
{
    if a < b {
        lemma_pow256_monotone(a, (b - 1) as nat);
    }
}

proof fn lemma_be_value_bound(b: Seq<u8>)
    ensures
        be_value(b) < pow256(b.len()),
    decreases b.len(),
{
    if b.len() > 0 {
        lemma_be_value_bound(b.drop_last());
    }
}

proof fn lemma_pow40_9()
    ensures
        pow40(9) == CALLSIGN_LIMIT,
{
    reveal_with_fuel(pow40, 10);
}

proof fn lemma_pow40_monotone(a: nat, b: nat)
    requires
        a <= b,
    ensures
        pow40(a) <= pow40(b),
    decreases b,
{
    if a < b {
        lemma_pow40_monotone(a, (b - 1) as nat);
    }
}

proof fn lemma_symbol_value_bound(t: Seq<char>)
    ensures
        symbol_value(t) < pow40(t.len()),
    decreases t.len(),
{
    if t.len() > 0 {
        lemma_symbol_value_bound(t.drop_first());
    }
}

proof fn lemma_symbol_value_step(c: Seq<char>, k: int, end: int)
    requires
        0 <= k < end <= c.len(),
    ensures
        symbol_value(c.subrange(k, end)) == alpha_pos(c[k]) + 40 * symbol_value(c.subrange(k + 1, end)),
{
    assert(c.subrange(k, end).drop_first() =~= c.subrange(k + 1, end));
}

/// Decodes a 6-byte Base-40 callsign field (the first six bytes of `encoded`).
pub fn decode_callsign(encoded: &[u8]) -> (r: String)
    requires
        encoded@.len() >= 6,
    ensures
        r@ == decoded(encoded@),
{
    let mut all_ones = true;
    let mut i: usize = 0;
    while i < 6
        invariant
            i <= 6 <= encoded@.len(),
            all_ones == forall|k: int| 0 <= k < i ==> encoded@[k] == 0xFF,
        decreases 6 - i,
    {
        all_ones = all_ones && encoded[i] == 0xFF;
        i = i + 1;
    }
    let mut callsign = String::new();
    if all_ones {
        push_char(&mut callsign, 'A');
        push_char(&mut callsign, 'L');
        push_char(&mut callsign, 'L');
        assert(callsign@ =~= broadcast_name());
        return callsign;
    }
    let mut enc: u64 = 0;
    let mut i: usize = 0;
    while i < 6
        invariant
            i <= 6 <= encoded@.len(),
            enc == be_value(encoded@.take(i as int)),
        decreases 6 - i,
    {
        proof {
            lemma_be_value_step(encoded@, i as int);
            lemma_be_value_bound(encoded@.take(i as int));
            lemma_pow256_monotone(i as nat, 5);
            lemma_pow256_5();
        }
        enc = enc * 256 + encoded[i] as u64;
        i = i + 1;
    }
    if enc >= CALLSIGN_LIMIT {
        return callsign;
    }
    let ghost v0 = enc as nat;
    while enc > 0
        invariant
            callsign@ + base40_symbols(enc as nat) == base40_symbols(v0),
        decreases enc,
    {
        let d = alpha_char(enc % 40);
        push_char(&mut callsign, d);
        assert(base40_symbols(enc as nat) == seq![d] + base40_symbols((enc / 40) as nat));
        enc = enc / 40;
        assert(callsign@ + base40_symbols(enc as nat) =~= base40_symbols(v0));
    }
    assert(callsign@ =~= callsign@ + base40_symbols(0));
    callsign
}

fn is_broadcast_text(c: &Vec<char>) -> (r: bool)
    ensures
        r == (c@ == broadcast_name() || c@ == broadcast_name_padded()),
{
    if c.len() == 3 {
        let r = c[0] == 'A' && c[1] == 'L' && c[2] == 'L';
        assert(r ==> c@ =~= broadcast_name());
        r
    } else if c.len() == 10 {
        let mut r = c[0] == ' ' && c[1] == 'A' && c[2] == 'L' && c[3] == 'L';
        let mut i: usize = 4;
        while i < 10
            invariant
                4 <= i <= 10 == c@.len(),
                r == (c@[0] == ' ' && c@[1] == 'A' && c@[2] == 'L' && c@[3] == 'L'
                    && forall|k: int| 4 <= k < i ==> c@[k] == ' '),
            decreases 10 - i,
        {
            r = r && c[i] == ' ';
            i = i + 1;
        }
        assert(r ==> c@ =~= broadcast_name_padded());
        assert(c@ == broadcast_name_padded() ==> c@[0] == ' ' && c@[1] == 'A' && c@[2] == 'L' && c@[3] == 'L'
            && forall|k: int| 4 <= k < 10 ==> c@[k] == ' ');
        r
    } else {
        false
    }
}

proof fn lemma_be_bytes6_value(v: nat)
    requires
        v < 0x1_0000_0000_0000,
    ensures
        be_value(be_bytes6(v)) == v,
{
    let w = v as u64;
    assert(w == (((((w / 0x100_0000_0000 % 256) * 256 + (w / 0x1_0000_0000 % 256)) * 256 + (w / 0x100_0000
        % 256)) * 256 + (w / 0x1_0000 % 256)) * 256 + (w / 0x100 % 256)) * 256 + w % 256) by (bit_vector)
        requires
            w < 0x1_0000_0000_0000,
    ;
    let b = be_bytes6(v);
    reveal_with_fuel(be_value, 7);
    assert(b.drop_last().drop_last().drop_last().drop_last().drop_last().drop_last() =~= Seq::<u8>::empty());
    assert(b.drop_last().drop_last().drop_last().drop_last().drop_last() =~= seq![b[0]]);
    assert(b.drop_last().drop_last().drop_last().drop_last() =~= seq![b[0], b[1]]);
    assert(b.drop_last().drop_last().drop_last() =~= seq![b[0], b[1], b[2]]);
    assert(b.drop_last().drop_last() =~= seq![b[0], b[1], b[2], b[3]]);
    assert(b.drop_last() =~= seq![b[0], b[1], b[2], b[3], b[4]]);
}

/// Encodes a callsign into its 6-byte Base-40 wire field.
pub fn encode_callsign(callsign: String) -> (r: Vec<u8>)
    ensures
        r@ == encoded(callsign@),
{
    let c = chars_of(callsign.as_str());
    if is_broadcast_text(&c) {
        let mut ff: Vec<u8> = Vec::new();
        let mut i: usize = 0;
        while i < 6
            invariant
                i <= 6,
                ff@ == Seq::new(i as nat, |k: int| 0xFFu8),
            decreases 6 - i,
        {
            ff.push(0xFF);
            i = i + 1;
            assert(ff@ =~= Seq::new(i as nat, |k: int| 0xFFu8));
        }
        assert(ff@ =~= seq![0xFFu8, 0xFF, 0xFF, 0xFF, 0xFF, 0xFF]);
        return ff;
    }
    let (start, trim_end) = trim_bounds(&c);
    let end = if trim_end - start > MAX_CALLSIGN_LEN {
        start + MAX_CALLSIGN_LEN
    } else {
        trim_end
    };
    assert(c@.subrange(start as int, end as int) =~= callsign_field(callsign@));
    let mut v: u64 = 0;
    let mut k = end;
    while k > start
        invariant
            start <= k <= end <= c@.len(),
            end - start <= 9,
            v == symbol_value(c@.subrange(k as int, end as int)),
        decreases k,
    {
        proof {
            lemma_symbol_value_step(c@, k - 1, end as int);
            lemma_symbol_value_bound(c@.subrange(k as int, end as int));
            lemma_pow40_monotone((end - k) as nat, 9);
            lemma_pow40_9();
        }
        k = k - 1;
        v = v * 40 + alpha_index(c[k]);
    }
    proof {
        lemma_symbol_value_bound(c@.subrange(start as int, end as int));
        lemma_pow40_monotone((end - start) as nat, 9);
        lemma_pow40_9();
    }
    let mut out: Vec<u8> = Vec::new();
    out.push((v / 0x100_0000_0000 % 256) as u8);
    out.push((v / 0x1_0000_0000 % 256) as u8);
    out.push((v / 0x100_0000 % 256) as u8);
    out.push((v / 0x1_0000 % 256) as u8);
    out.push((v / 0x100 % 256) as u8);
    out.push((v % 256) as u8);
    assert(out@ =~= be_bytes6(v as nat));
    out
}

proof fn lemma_alpha_inverse(c: char)
    requires
        in_alphabet(c),
    ensures
        alpha(alpha_pos(c)) == c,
        0 <= alpha_pos(c) < 40,
{
}

proof fn lemma_symbols_of_value(s: Seq<char>)
    requires
        s.len() >= 1,
        forall|i: int| 0 <= i < s.len() ==> in_alphabet(#[trigger] s[i]),
        s.last() != ' ',
    ensures
        base40_symbols(symbol_value(s)) == s,
    decreases s.len(),
{
    let t = s.drop_first();
    lemma_alpha_inverse(s[0]);
    let p = alpha_pos(s[0]);
    let v = symbol_value(s);
    if s.len() == 1 {
        assert(symbol_value(t) == 0);
        assert(v == p);
        assert(p != 0);
        assert(v % 40 == p);
        assert(v / 40 == 0);
        assert(base40_symbols(v) == seq![alpha(p)] + base40_symbols(0));
        assert(base40_symbols(0) =~= Seq::<char>::empty());
        assert(base40_symbols(v) =~= s);
    } else {
        assert forall|i: int| 0 <= i < t.len() implies in_alphabet(#[trigger] t[i]) by {
            assert(t[i] == s[i + 1]);
        }
        lemma_symbols_of_value(t);
        let r = symbol_value(t);
        assert(r != 0);
        assert(v % 40 == p);
        assert(v / 40 == r);
        assert(base40_symbols(v) == seq![alpha(p)] + base40_symbols(r));
        assert(s =~= seq![s[0]] + t);
    }
}

/// Decoding the encoding of a callsign gives it back, for every callsign of one to nine
/// alphabet symbols without a leading or trailing space.
pub proof fn lemma_callsign_round_trip(s: Seq<char>)
    requires
        1 <= s.len() <= 9,
        forall|i: int| 0 <= i < s.len() ==> in_alphabet(#[trigger] s[i]),
        s[0] != ' ',
        s.last() != ' ',
    ensures
        decoded(encoded(s)) == s,
{
    if s == broadcast_name() {
        assert(is_broadcast_field(encoded(s)));
    } else {
        assert(s != broadcast_name_padded());
        let c0 = s[0];
        let cn = s.last();
        assert(in_alphabet(c0) && in_alphabet(cn));
        assert(!is_white_space(c0));
        assert(!is_white_space(cn));
        assert(trim_start(s) == s);
        assert(trim_end(s) == s);
        assert(callsign_field(s) == s);
        let v = symbol_value(s);
        lemma_symbol_value_bound(s);
        lemma_pow40_monotone(s.len(), 9);
        lemma_pow40_9();
        lemma_be_bytes6_value(v);
        let b = be_bytes6(v);
        assert(b.take(6) =~= b);
        assert(b[0] != 0xFF);
        lemma_symbols_of_value(s);
    }
}

/// Every 6-byte field other than the broadcast marker whose value is at least 40 to the power 9
/// decodes to the empty callsign.
pub proof fn lemma_out_of_range_decodes_empty(b: Seq<u8>)
    requires
        b.len() == 6,
        !is_broadcast_field(b),
        be_value(b) >= CALLSIGN_LIMIT,
    ensures
        decoded(b) == Seq::<char>::empty(),
{
    assert(b.take(6) =~= b);
}

} // verus!
