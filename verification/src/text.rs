//! Text helpers of the library: comparing, decoding and formatting strings,
//! and the comma-separated list in which profile tags are stored.
use vstd::prelude::*;
use vstd::string::StrSliceExecFns;
use vstd::string::StringExecFns;
use vstd::utf8::{decode_utf8, encode_utf8, encode_utf8_decode_utf8, valid_utf8};

verus! {

/// The characters of an optional string.
pub open spec fn opt_chars(o: Option<String>) -> Option<Seq<char>> {
    match o {
        Some(s) => Some(s@),
        None => None,
    }
}

/// The characters of each string of a sequence.
pub open spec fn strings_chars(v: Seq<String>) -> Seq<Seq<char>> {
    v.map_values(|s: String| s@)
}

/// What `String::from_utf8_lossy` makes of a byte sequence: the decoded text,
/// with each invalid sequence replaced by U+FFFD.
pub uninterp spec fn utf8_lossy(bytes: Seq<u8>) -> Seq<char>;

/// Decodes bytes with `String::from_utf8_lossy`. Claimed: the text is
/// `utf8_lossy` of the bytes; for valid UTF-8 it is the decoded text
/// unchanged, as the function's documentation states; and an ASCII character
/// of the text is one of the bytes (ASCII bytes decode to themselves, valid
/// multi-byte sequences to non-ASCII characters, and each invalid sequence to
/// U+FFFD); the text has no more characters than there are bytes, since each
/// character comes from one valid sequence or replaces an invalid one, and
/// either is at least one byte long.
#[verifier::external_body]
pub(crate) fn string_from_utf8_lossy(bytes: &[u8]) -> (s: String)
    ensures
        s@ == utf8_lossy(bytes@),
        valid_utf8(bytes@) ==> s@ == decode_utf8(bytes@),
        s@.len() <= bytes@.len(),
        forall|i: int|
            0 <= i < s@.len() && (#[trigger] s@[i] as u32) < 0x80 ==> bytes@.contains(
                (s@[i] as u32) as u8,
            ),
{
    String::from_utf8_lossy(bytes).into_owned()
}

/// The text that lossy decoding gives: the decoded characters when the bytes
/// are valid UTF-8.
pub open spec fn lossy_text(bytes: Seq<u8>) -> Seq<char> {
    if valid_utf8(bytes) {
        decode_utf8(bytes)
    } else {
        utf8_lossy(bytes)
    }
}

/// Copies an optional string.
pub fn clone_opt_string(o: &Option<String>) -> (r: Option<String>)
    ensures
        opt_chars(r) == opt_chars(*o),
{
    match o {
        Some(s) => Some(s.clone()),
        None => None,
    }
}

/// Two strings are equal exactly when their UTF-8 encodings are.
pub proof fn lemma_encode_utf8_injective(a: Seq<char>, b: Seq<char>)
    requires
        encode_utf8(a) == encode_utf8(b),
    ensures
        a == b,
{
    encode_utf8_decode_utf8(a);
    encode_utf8_decode_utf8(b);
}

/// Compares two strings.
pub fn str_eq(a: &str, b: &str) -> (r: bool)
    ensures
        r == (a@ == b@),
{
    let x = a.as_bytes();
    let y = b.as_bytes();
    if x.len() != y.len() {
        return false;
    }
    let mut i: usize = 0;
    while i < x.len()
        invariant
            x@.len() == y@.len(),
            x@ == encode_utf8(a@),
            y@ == encode_utf8(b@),
            i <= x@.len(),
            forall|j: int| 0 <= j < i ==> x@[j] == y@[j],
        decreases x@.len() - i,
    {
        if x[i] != y[i] {
            return false;
        }
        i = i + 1;
    }
    assert(x@ == y@);
    proof {
        lemma_encode_utf8_injective(a@, b@);
    }
    true
}

/// The character of a decimal digit.
pub open spec fn digit_char(d: nat) -> char {
    if d == 0 {
        '0'
    } else if d == 1 {
        '1'
    } else if d == 2 {
        '2'
    } else if d == 3 {
        '3'
    } else if d == 4 {
        '4'
    } else if d == 5 {
        '5'
    } else if d == 6 {
        '6'
    } else if d == 7 {
        '7'
    } else if d == 8 {
        '8'
    } else {
        '9'
    }
}

/// The decimal digits of a natural number, most significant first.
pub open spec fn digits(n: nat) -> Seq<char>
    decreases n,
{
    if n < 10 {
        seq![digit_char(n)]
    } else {
        digits(n / 10).push(digit_char(n % 10))
    }
}

/// The number that a string of decimal digits reads as, most significant
/// digit first.
pub open spec fn decimal_value(s: Seq<char>) -> int
    decreases s.len(),
{
    if s.len() == 0 {
        0
    } else {
        decimal_value(s.drop_last()) * 10 + (s.last() as int - '0' as int)
    }
}

/// A decimal numeral as `{}` writes a natural number: one or more digits,
/// with no leading zero unless it is the single digit 0.
pub open spec fn canonical_decimal(s: Seq<char>) -> bool {
    &&& s.len() > 0
    &&& forall|i: int| 0 <= i < s.len() ==> '0' <= #[trigger] s[i] <= '9'
    &&& (s.len() > 1 ==> s[0] != '0')
}

proof fn lemma_digit_char_value(d: nat)
    requires
        d < 10,
    ensures
        '0' <= digit_char(d) <= '9',
        digit_char(d) as int - '0' as int == d,
        d > 0 ==> digit_char(d) != '0',
{
}

/// Law: the decimal form of a natural number is a canonical numeral that
/// reads back as that number.
pub proof fn lemma_decimal_reads_back(n: nat)
    ensures
        canonical_decimal(decimal(n as int)),
        decimal_value(decimal(n as int)) == n,
    decreases n,
{
    let d = digits(n);
    assert(decimal(n as int) == d);
    if n >= 10 {
        lemma_decimal_reads_back(n / 10);
        let h = digits(n / 10);
        assert(decimal((n / 10) as int) == h);
        let c = digit_char(n % 10);
        lemma_digit_char_value(n % 10);
        assert(d == h.push(c));
        assert(d.drop_last() == h);
        assert(d.last() == c);
        assert((n / 10) * 10 + n % 10 == n) by (nonlinear_arith);
        assert(decimal_value(d) == decimal_value(h) * 10 + (c as int - '0' as int));
        assert forall|i: int| 0 <= i < d.len() implies '0' <= #[trigger] d[i] <= '9' by {
            if i < h.len() {
                assert(d[i] == h[i]);
            }
        }
        assert(d[0] == h[0]);
        if n / 10 < 10 {
            assert(h == seq![digit_char(n / 10)]);
            lemma_digit_char_value(n / 10);
        } else {
            let m: nat = n / 10 / 10;
            assert(h == digits(m).push(digit_char((n / 10) % 10)));
            assert(digits(m).len() >= 1);
        }
    } else {
        lemma_digit_char_value(n);
        assert(d == seq![digit_char(n)]);
        assert(d.drop_last() == Seq::<char>::empty());
        assert(decimal_value(d) == decimal_value(d.drop_last()) * 10 + (d.last() as int - '0' as int));
    }
}

/// The decimal form of an integer, as `{}` formats it: a minus sign before
/// the digits of a negative number.
pub open spec fn decimal(n: int) -> Seq<char> {
    if n < 0 {
        seq!['-'] + digits((-n) as nat)
    } else {
        digits(n as nat)
    }
}

fn push_digit(s: &mut String, d: u64)
    requires
        d < 10,
    ensures
        final(s)@ == old(s)@.push(digit_char(d as nat)),
{
    if d == 0 {
        proof { reveal_strlit("0"); }
        s.append("0");
    } else if d == 1 {
        proof { reveal_strlit("1"); }
        s.append("1");
    } else if d == 2 {
        proof { reveal_strlit("2"); }
        s.append("2");
    } else if d == 3 {
        proof { reveal_strlit("3"); }
        s.append("3");
    } else if d == 4 {
        proof { reveal_strlit("4"); }
        s.append("4");
    } else if d == 5 {
        proof { reveal_strlit("5"); }
        s.append("5");
    } else if d == 6 {
        proof { reveal_strlit("6"); }
        s.append("6");
    } else if d == 7 {
        proof { reveal_strlit("7"); }
        s.append("7");
    } else if d == 8 {
        proof { reveal_strlit("8"); }
        s.append("8");
    } else {
        proof { reveal_strlit("9"); }
        s.append("9");
    }
}

/// Appends the decimal digits of an unsigned number.
pub fn push_decimal_u64(s: &mut String, n: u64)
    ensures
        final(s)@ == old(s)@ + digits(n as nat),
    decreases n,
{
    if n >= 10 {
        push_decimal_u64(s, n / 10);
    }
    push_digit(s, n % 10);
}

/// Appends the decimal form of a signed number.
pub fn push_decimal_i64(s: &mut String, n: i64)
    ensures
        final(s)@ == old(s)@ + decimal(n as int),
{
    if n < 0 {
        proof { reveal_strlit("-"); }
        s.append("-");
        let magnitude: u64 = if n == i64::MIN {
            9223372036854775808u64
        } else {
            (-n) as u64
        };
        push_decimal_u64(s, magnitude);
    } else {
        push_decimal_u64(s, n as u64);
    }
}

/// The decimal form of a signed number (what `to_string` gives).
pub fn i64_to_string(n: i64) -> (s: String)
    ensures
        s@ == decimal(n as int),
{
    let mut s = String::new();
    push_decimal_i64(&mut s, n);
    s
}

/// The parts joined with a separator between each two (what `join` gives).
pub open spec fn join_with(parts: Seq<Seq<char>>, sep: char) -> Seq<char>
    decreases parts.len(),
{
    if parts.len() == 0 {
        Seq::empty()
    } else if parts.len() == 1 {
        parts[0]
    } else {
        join_with(parts.drop_last(), sep).push(sep) + parts.last()
    }
}

/// The fields that splitting at each separator gives (what `split` gives):
/// always at least one, possibly empty.
pub open spec fn fields(s: Seq<char>, sep: char) -> Seq<Seq<char>>
    decreases s.len(),
{
    if s.len() == 0 {
        seq![Seq::<char>::empty()]
    } else {
        let init = fields(s.drop_last(), sep);
        if s.last() == sep {
            init.push(Seq::empty())
        } else {
            init.update(init.len() - 1, init.last().push(s.last()))
        }
    }
}

/// The non-empty parts, in order.
pub open spec fn nonempty_parts(parts: Seq<Seq<char>>) -> Seq<Seq<char>>
    decreases parts.len(),
{
    if parts.len() == 0 {
        Seq::empty()
    } else if parts.last().len() == 0 {
        nonempty_parts(parts.drop_last())
    } else {
        nonempty_parts(parts.drop_last()).push(parts.last())
    }
}

/// The tags that a stored tag list holds: its comma-separated fields,
/// without the empty ones.
pub open spec fn tag_list(s: Seq<char>) -> Seq<Seq<char>> {
    nonempty_parts(fields(s, ','))
}

/// A tag that survives being stored: non-empty and free of commas.
pub open spec fn storable_tag(t: Seq<char>) -> bool {
    t.len() > 0 && !t.contains(',')
}

proof fn lemma_fields_nonempty(s: Seq<char>, sep: char)
    ensures
        fields(s, sep).len() >= 1,
    decreases s.len(),
{
    if s.len() > 0 {
        lemma_fields_nonempty(s.drop_last(), sep);
    }
}

/// Appending text without a separator extends the last field.
proof fn lemma_fields_append_plain(a: Seq<char>, b: Seq<char>, sep: char)
    requires
        !b.contains(sep),
    ensures
        fields(a + b, sep) == fields(a, sep).update(
            fields(a, sep).len() - 1,
            fields(a, sep).last() + b,
        ),
    decreases b.len(),
{
    lemma_fields_nonempty(a, sep);
    if b.len() == 0 {
        assert(a + b == a);
        assert(fields(a, sep).last() + b == fields(a, sep).last());
        assert(fields(a, sep).update(fields(a, sep).len() - 1, fields(a, sep).last())
            == fields(a, sep));
    } else {
        let b0 = b.drop_last();
        assert(!b0.contains(sep)) by {
            if b0.contains(sep) {
                let k = choose|k: int| 0 <= k < b0.len() && b0[k] == sep;
                assert(b[k] == sep);
            }
        }
        lemma_fields_append_plain(a, b0, sep);
        assert((a + b).drop_last() == a + b0);
        assert((a + b).last() == b.last());
        assert(b.last() != sep) by {
            assert(b[b.len() - 1] == b.last());
        }
        lemma_fields_nonempty(a + b0, sep);
        let f = fields(a, sep);
        let g = fields(a + b0, sep);
        assert(g == f.update(f.len() - 1, f.last() + b0));
        assert(g.len() == f.len());
        assert(g.last() == f.last() + b0);
        assert(fields(a + b, sep) == g.update(g.len() - 1, g.last().push(b.last())));
        assert((f.last() + b0).push(b.last()) == f.last() + b);
        assert(g.update(g.len() - 1, g.last().push(b.last())) == f.update(f.len() - 1, f.last() + b));
    }
}

/// Splitting a join of separator-free parts gives the parts back.
proof fn lemma_fields_of_join(parts: Seq<Seq<char>>, sep: char)
    requires
        parts.len() >= 1,
        forall|i: int| 0 <= i < parts.len() ==> !(#[trigger] parts[i]).contains(sep),
    ensures
        fields(join_with(parts, sep), sep) == parts,
    decreases parts.len(),
{
    if parts.len() == 1 {
        lemma_fields_append_plain(Seq::empty(), parts[0], sep);
        assert(Seq::<char>::empty() + parts[0] == parts[0]);
        assert(fields(Seq::<char>::empty(), sep).last() + parts[0] == parts[0]);
        assert(seq![parts[0]] == parts);
    } else {
        let init = parts.drop_last();
        assert forall|i: int| 0 <= i < init.len() implies !(#[trigger] init[i]).contains(sep) by {
            assert(init[i] == parts[i]);
        }
        lemma_fields_of_join(init, sep);
        let j = join_with(init, sep);
        let js = j.push(sep);
        assert(js.drop_last() == j);
        assert(fields(js, sep) == init.push(Seq::empty()));
        assert(!parts.last().contains(sep)) by {
            assert(parts[parts.len() - 1] == parts.last());
        }
        lemma_fields_append_plain(js, parts.last(), sep);
        assert(Seq::<char>::empty() + parts.last() == parts.last());
        assert(init.push(Seq::empty()).update(init.len() as int, parts.last()) == parts);
    }
}

proof fn lemma_nonempty_parts_keep(parts: Seq<Seq<char>>)
    requires
        forall|i: int| 0 <= i < parts.len() ==> (#[trigger] parts[i]).len() > 0,
    ensures
        nonempty_parts(parts) == parts,
    decreases parts.len(),
{
    if parts.len() > 0 {
        let init = parts.drop_last();
        assert forall|i: int| 0 <= i < init.len() implies (#[trigger] init[i]).len() > 0 by {
            assert(init[i] == parts[i]);
        }
        lemma_nonempty_parts_keep(init);
        assert(parts.last() == parts[parts.len() - 1]);
        assert(init.push(parts.last()) == parts);
    }
}

/// Law: a list of storable tags, joined with commas and split again, comes
/// back unchanged.
pub proof fn lemma_tag_list_round_trip(tags: Seq<Seq<char>>)
    requires
        forall|i: int| 0 <= i < tags.len() ==> storable_tag(#[trigger] tags[i]),
    ensures
        tag_list(join_with(tags, ',')) == tags,
{
    if tags.len() == 0 {
        let e = Seq::<char>::empty();
        assert(join_with(tags, ',') == e);
        assert(fields(e, ',') == seq![e]);
        assert(seq![e].drop_last() == Seq::<Seq<char>>::empty());
        assert(seq![e].last().len() == 0);
        assert(nonempty_parts(seq![e]) == nonempty_parts(Seq::<Seq<char>>::empty()));
        assert(tags == Seq::<Seq<char>>::empty());
    } else {
        assert forall|i: int| 0 <= i < tags.len() implies !(#[trigger] tags[i]).contains(',') by {
            assert(storable_tag(tags[i]));
        }
        lemma_fields_of_join(tags, ',');
        assert forall|i: int| 0 <= i < tags.len() implies (#[trigger] tags[i]).len() > 0 by {
            assert(storable_tag(tags[i]));
        }
        lemma_nonempty_parts_keep(tags);
    }
}

/// Joins tags with commas, as they are stored.
pub fn join_tags(tags: &Vec<String>) -> (s: String)
    ensures
        s@ == join_with(strings_chars(tags@), ','),
{
    let mut s = String::new();
    let ghost parts = strings_chars(tags@);
    let mut i: usize = 0;
    while i < tags.len()
        invariant
            i <= tags@.len(),
            parts == strings_chars(tags@),
            s@ == join_with(parts.subrange(0, i as int), ','),
        decreases tags@.len() - i,
    {
        let ghost before = s@;
        if i > 0 {
            proof { reveal_strlit(","); }
            s.append(",");
        }
        s.append(tags[i].as_str());
        proof {
            let p = parts.subrange(0, i + 1);
            assert(p.drop_last() == parts.subrange(0, i as int));
            assert(p.last() == tags@[i as int]@);
            if i == 0 {
                assert(before == Seq::<char>::empty());
                assert(Seq::<char>::empty() + tags@[i as int]@ == tags@[i as int]@);
            }
        }
        i = i + 1;
    }
    assert(parts.subrange(0, tags@.len() as int) == parts);
    s
}

/// Splits a stored tag list at its commas and keeps the non-empty tags.
pub fn split_tags(s: &str) -> (tags: Vec<String>)
    ensures
        strings_chars(tags@) == tag_list(s@),
{
    let n = s.unicode_len();
    let mut out: Vec<String> = Vec::new();
    let mut start: usize = 0;
    let mut i: usize = 0;
    while i < n
        invariant
            n == s@.len(),
            start <= i <= n,
            fields(s@.subrange(0, i as int), ',').len() >= 1,
            fields(s@.subrange(0, i as int), ',').last() == s@.subrange(start as int, i as int),
            strings_chars(out@) == nonempty_parts(fields(s@.subrange(0, i as int), ',').drop_last()),
        decreases n - i,
    {
        let c = s.get_char(i);
        let ghost f = fields(s@.subrange(0, i as int), ',');
        proof {
            assert(s@.subrange(0, i + 1).drop_last() == s@.subrange(0, i as int));
            assert(s@.subrange(0, i + 1).last() == c);
        }
        if c == ',' {
            if i > start {
                let piece = s.substring_char(start, i).to_owned();
                out.push(piece);
            }
            proof {
                let f2 = f.push(Seq::<char>::empty());
                assert(f2.drop_last() == f);
                assert(f.drop_last().push(f.last()) == f);
            }
            start = i + 1;
        } else {
            proof {
                let f2 = f.update(f.len() - 1, f.last().push(c));
                assert(f2.drop_last() == f.drop_last());
                assert(s@.subrange(start as int, i + 1) == s@.subrange(start as int, i as int).push(c));
            }
        }
        i = i + 1;
    }
    assert(s@.subrange(0, n as int) == s@);
    let ghost f = fields(s@, ',');
    if n > start {
        let piece = s.substring_char(start, n).to_owned();
        out.push(piece);
    }
    proof {
        assert(f.drop_last().push(f.last()) == f);
    }
    out
}

} // verus!
