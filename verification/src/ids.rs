use vstd::prelude::*;
use crate::error::MioInnerError;
use crate::text::{decimal_text, hex_char, hex_text, push_char, push_hex};

verus! {

/// The value of bytes read as a big-endian unsigned number.
pub open spec fn be_value(bytes: Seq<u8>) -> nat
    decreases bytes.len(),
{
    if bytes.len() == 0 {
        0
    } else {
        be_value(bytes.drop_last()) * 256 + bytes.last() as nat
    }
}

/// The hyphenated lowercase text of the UUID whose 128 bits are `v`, as `uuid`
/// writes it: groups of 8, 4, 4, 4 and 12 hexadecimal digits.
pub open spec fn uuid_text(v: u128) -> Seq<char> {
    hex_text(v as nat / 0x1_0000_0000_0000_0000_0000_0000, 8) + seq!['-']
        + hex_text(v as nat / 0x1_0000_0000_0000_0000_0000, 4) + seq!['-']
        + hex_text(v as nat / 0x1_0000_0000_0000_0000, 4) + seq!['-']
        + hex_text(v as nat / 0x1_0000_0000_0000, 4) + seq!['-']
        + hex_text(v as nat, 12)
}

/// The message of the `uuid` error for a byte slice of the wrong length.
pub open spec fn uuid_length_error_text(len: nat) -> Seq<char> {
    "invalid length: expected 16 bytes, found "@ + decimal_text(len)
}

/// The hyphenated text of a UUID.
pub fn uuid_string(v: u128) -> (s: String)
    ensures
        s@ == uuid_text(v),
{
    let mut s = String::new();
    push_hex(&mut s, v / 0x1_0000_0000_0000_0000_0000_0000, 8);
    push_char(&mut s, '-');
    push_hex(&mut s, v / 0x1_0000_0000_0000_0000_0000, 4);
    push_char(&mut s, '-');
    push_hex(&mut s, v / 0x1_0000_0000_0000_0000, 4);
    push_char(&mut s, '-');
    push_hex(&mut s, v / 0x1_0000_0000_0000, 4);
    push_char(&mut s, '-');
    push_hex(&mut s, v, 12);
    s
}

/// Reads a UUID from a byte slice (`uuid::Uuid::from_slice`, then `as_u128`).
/// `from_slice` fails exactly when the slice does not hold 16 bytes, with the
/// length error; otherwise the UUID holds the bytes in order, and `as_u128`
/// reads them big-endian.
#[verifier::external_body]
fn uuid_from_slice(bytes: &[u8]) -> (res: Result<u128, String>)
    ensures
        res is Ok <==> bytes@.len() == 16,
        res matches Ok(v) ==> v == be_value(bytes@) as u128,
        res matches Err(e) ==> e@ == uuid_length_error_text(bytes@.len()),
{
    match uuid::Uuid::from_slice(bytes) {
        Ok(id) => Ok(id.as_u128()),
        Err(err) => Err(err.to_string()),
    }
}

/// The message of the database error for bytes that do not form a UUID.
pub open spec fn uuid_serialize_error_text(len: nat) -> Seq<char> {
    "failed to serialize uuid: "@ + uuid_length_error_text(len)
}

/// Reads a UUID stored in the database as 16 big-endian bytes.
pub fn uuid_serialize(bytes: &[u8]) -> (res: Result<u128, MioInnerError>)
    ensures
        res is Ok <==> bytes@.len() == 16,
        res matches Ok(v) ==> v == be_value(bytes@) as u128,
        res is Err ==> (res matches Err(MioInnerError::DbError(m)) && m@
            == uuid_serialize_error_text(bytes@.len())),
{
    match uuid_from_slice(bytes) {
        Ok(v) => Ok(v),
        Err(e) => {
            let mut m = String::from_str("failed to serialize uuid: ");
            m.append(e.as_str());
            Err(MioInnerError::DbError(m))
        },
    }
}

/// Reads an optional UUID column: absent stays absent, present bytes must form a UUID.
pub fn uuid_map_back(x: Option<Vec<u8>>) -> (res: Result<Option<u128>, MioInnerError>)
    ensures
        res is Ok <==> (x is None || x.unwrap()@.len() == 16),
        x is None ==> (res matches Ok(o) && o is None),
        x is Some ==> (res matches Ok(o) ==> o == Some(be_value(x.unwrap()@) as u128)),
        res is Err ==> (res matches Err(MioInnerError::DbError(m)) && m@
            == uuid_serialize_error_text(x.unwrap()@.len())),
{
    match x {
        Some(b) => {
            let v = uuid_serialize(b.as_slice())?;
            Ok(Some(v))
        },
        None => Ok(None),
    }
}

/// Whether `c` is a hexadecimal digit, of either case.
pub open spec fn is_hex_digit(c: char) -> bool {
    (48 <= c as int && c as int <= 57) || (97 <= c as int && c as int <= 102) || (65 <= c as int
        && c as int <= 70)
}

/// The value of a hexadecimal digit.
pub open spec fn hex_value(c: char) -> nat {
    if c as int <= 57 {
        (c as int - 48) as nat
    } else if c as int <= 70 {
        (c as int - 55) as nat
    } else {
        (c as int - 87) as nat
    }
}

/// The number that hexadecimal digits write, most significant first.
pub open spec fn hex_number(d: Seq<char>) -> nat
    decreases d.len(),
{
    if d.len() == 0 {
        0
    } else {
        hex_number(d.drop_last()) * 16 + hex_value(d.last())
    }
}

/// The 32 digits of a hyphenated UUID text: 36 characters with hyphens after
/// the 8th, 12th, 16th and 20th digit.
pub open spec fn hyphenated_digits(s: Seq<char>) -> Option<Seq<char>> {
    if s.len() == 36 && s[8] == '-' && s[13] == '-' && s[18] == '-' && s[23] == '-' {
        Some(s.subrange(0, 8) + s.subrange(9, 13) + s.subrange(14, 18) + s.subrange(19, 23)
            + s.subrange(24, 36))
    } else {
        None
    }
}

/// Whether `c` is `lower`, or its ASCII capital when `lower` is a small letter.
pub open spec fn same_ignoring_case(c: char, lower: char) -> bool {
    c == lower || (97 <= lower as int && lower as int <= 122 && c as int == lower as int - 32)
}

/// The digits a UUID text carries in one of the forms `uuid` reads: 32 digits;
/// the hyphenated form; that form in braces; that form after `urn:uuid:`.
pub open spec fn uuid_digits(s: Seq<char>) -> Option<Seq<char>> {
    if s.len() == 32 {
        Some(s)
    } else if s.len() == 36 {
        hyphenated_digits(s)
    } else if s.len() == 38 && s[0] == '{' && s[37] == '}' {
        hyphenated_digits(s.subrange(1, 37))
    } else if s.len() == 45 && forall|i: int|
        0 <= i < 9 ==> same_ignoring_case(#[trigger] s[i], "urn:uuid:"@[i]) {
        hyphenated_digits(s.subrange(9, 45))
    } else {
        None
    }
}

/// The 128 bits of the UUID that `s` writes, if it writes one.
pub open spec fn parsed_uuid(s: Seq<char>) -> Option<nat> {
    match uuid_digits(s) {
        Some(d) => if forall|i: int| 0 <= i < d.len() ==> is_hex_digit(#[trigger] d[i]) {
            Some(hex_number(d))
        } else {
            None
        },
        None => None,
    }
}

/// The message of every failed `uuid::Uuid::try_parse`.
pub open spec fn uuid_parse_error_text() -> Seq<char> {
    "failed to parse a UUID"@
}

/// `uuid::Uuid::try_parse`, then `as_u128`. As its source shows, it accepts the
/// forms of `uuid_digits` whose 32 characters are all hexadecimal digits, of
/// either case, and reads them as the 128 bits, most significant first; every
/// failure is the same error, whose text is "failed to parse a UUID".
#[verifier::external_body]
pub(crate) fn uuid_try_parse(s: &str) -> (res: Result<u128, String>)
    ensures
        res is Ok <==> parsed_uuid(s@) is Some,
        res matches Ok(v) ==> parsed_uuid(s@) == Some(v as nat),
        res matches Err(e) ==> e@ == uuid_parse_error_text(),
{
    match uuid::Uuid::try_parse(s) {
        Ok(id) => Ok(id.as_u128()),
        Err(err) => Err(err.to_string()),
    }
}

/// Whether row `k` is the first whose bytes do not form a UUID.
pub open spec fn first_bad_row_at(rows: Seq<Vec<u8>>, k: int) -> bool {
    &&& 0 <= k < rows.len()
    &&& rows[k]@.len() != 16
    &&& forall|j: int| 0 <= j < k ==> (#[trigger] rows[j])@.len() == 16
}

/// Reads a column of UUIDs, as collecting `uuid_serialize` over the rows does:
/// all of them in order, or the error of the first row that holds no UUID.
pub fn uuid_serialize_all(rows: &Vec<Vec<u8>>) -> (res: Result<Vec<u128>, MioInnerError>)
    ensures
        res is Err <==> exists|k: int| first_bad_row_at(rows@, k),
        res matches Ok(v) ==> v@.len() == rows@.len() && forall|i: int|
            0 <= i < rows@.len() ==> v@[i] == be_value((#[trigger] rows@[i])@) as u128,
        res matches Err(e) ==> exists|k: int|
            first_bad_row_at(rows@, k) && (e matches MioInnerError::DbError(m) && m@
                == uuid_serialize_error_text(rows@[k]@.len())),
{
    let mut ids: Vec<u128> = Vec::new();
    let mut i: usize = 0;
    while i < rows.len()
        invariant
            i <= rows@.len(),
            ids@.len() == i,
            forall|j: int| 0 <= j < i ==> (#[trigger] rows@[j])@.len() == 16,
            forall|j: int| 0 <= j < i ==> ids@[j] == be_value((#[trigger] rows@[j])@) as u128,
        decreases rows@.len() - i,
    {
        match uuid_serialize(rows[i].as_slice()) {
            Ok(v) => {
                ids.push(v);
            },
            Err(e) => {
                assert(first_bad_row_at(rows@, i as int));
                return Err(e);
            },
        }
        i = i + 1;
    }
    assert forall|k: int| !first_bad_row_at(rows@, k) by {
        if 0 <= k < rows@.len() {
            assert(rows@[k]@.len() == 16);
        }
    }
    Ok(ids)
}

/// Sixteen to the power `w`.
pub open spec fn pow16(w: nat) -> nat
    decreases w,
{
    if w == 0 {
        1
    } else {
        16 * pow16((w - 1) as nat)
    }
}

proof fn lemma_hex_char_digit(d: nat)
    requires
        d < 16,
    ensures
        is_hex_digit(hex_char(d)),
        hex_value(hex_char(d)) == d,
{
}

/// The digits `hex_text` writes are hexadecimal digits that read back as the
/// number modulo the width's power of sixteen.
pub proof fn lemma_hex_text(n: nat, w: nat)
    ensures
        hex_text(n, w).len() == w,
        forall|i: int| 0 <= i < w ==> is_hex_digit(#[trigger] hex_text(n, w)[i]),
        hex_number(hex_text(n, w)) == n % pow16(w),
    decreases w,
{
    if w > 0 {
        let p = pow16((w - 1) as nat);
        lemma_hex_text(n / 16, (w - 1) as nat);
        lemma_hex_char_digit(n % 16);
        let s = hex_text(n / 16, (w - 1) as nat);
        assert(hex_text(n, w) == s.push(hex_char(n % 16)));
        assert(hex_text(n, w).drop_last() == s);
        assert forall|i: int| 0 <= i < w implies is_hex_digit(#[trigger] hex_text(n, w)[i]) by {
            if i < w - 1 {
                assert(hex_text(n, w)[i] == s[i]);
            }
        }
        assert(p > 0) by {
            lemma_pow16_positive((w - 1) as nat);
        }
        vstd::arithmetic::div_mod::lemma_mod_breakdown(n as int, 16, p as int);
    }
}

proof fn lemma_pow16_positive(w: nat)
    ensures
        pow16(w) > 0,
    decreases w,
{
    if w > 0 {
        lemma_pow16_positive((w - 1) as nat);
    }
}

/// The number that two runs of digits write together.
pub proof fn lemma_hex_number_concat(a: Seq<char>, b: Seq<char>)
    ensures
        hex_number(a + b) == hex_number(a) * pow16(b.len()) + hex_number(b),
    decreases b.len(),
{
    if b.len() == 0 {
        assert(a + b == a);
        assert(pow16(0) == 1);
        assert(hex_number(b) == 0);
    } else {
        let b0 = b.drop_last();
        lemma_hex_number_concat(a, b0);
        assert((a + b).drop_last() == a + b0);
        assert((a + b).last() == b.last());
        let x = hex_number(a);
        let y = hex_number(b0);
        let p = pow16(b0.len());
        let z = hex_value(b.last());
        assert(pow16(b.len()) == 16 * p);
        assert(hex_number(b) == y * 16 + z);
        assert(hex_number(a + b) == hex_number(a + b0) * 16 + z);
        assert((x * p + y) * 16 + z == x * (16 * p) + (y * 16 + z)) by (nonlinear_arith);
        assert(hex_number(a + b) == x * pow16(b.len()) + hex_number(b));
    }
}

/// The hyphenated text of a UUID reads back as the same 128 bits.
pub proof fn lemma_uuid_text_parses(v: u128)
    ensures
        parsed_uuid(uuid_text(v)) == Some(v as nat),
{
    let n0 = v as nat / 0x1_0000_0000_0000_0000_0000_0000;
    let n1 = v as nat / 0x1_0000_0000_0000_0000_0000;
    let n2 = v as nat / 0x1_0000_0000_0000_0000;
    let n3 = v as nat / 0x1_0000_0000_0000;
    let g0 = hex_text(n0, 8);
    let g1 = hex_text(n1, 4);
    let g2 = hex_text(n2, 4);
    let g3 = hex_text(n3, 4);
    let g4 = hex_text(v as nat, 12);
    lemma_hex_text(n0, 8);
    lemma_hex_text(n1, 4);
    lemma_hex_text(n2, 4);
    lemma_hex_text(n3, 4);
    lemma_hex_text(v as nat, 12);
    let t = uuid_text(v);
    assert(t == g0 + seq!['-'] + g1 + seq!['-'] + g2 + seq!['-'] + g3 + seq!['-'] + g4);
    assert(t.len() == 36);
    assert(t[8] == '-' && t[13] == '-' && t[18] == '-' && t[23] == '-');
    let d = g0 + g1 + g2 + g3 + g4;
    assert(t.subrange(0, 8) == g0);
    assert(t.subrange(9, 13) == g1);
    assert(t.subrange(14, 18) == g2);
    assert(t.subrange(19, 23) == g3);
    assert(t.subrange(24, 36) == g4);
    assert(uuid_digits(t) == Some(d));
    assert forall|i: int| 0 <= i < d.len() implies is_hex_digit(#[trigger] d[i]) by {
        if i < 8 {
            assert(d[i] == g0[i]);
        } else if i < 12 {
            assert(d[i] == g1[i - 8]);
        } else if i < 16 {
            assert(d[i] == g2[i - 12]);
        } else if i < 20 {
            assert(d[i] == g3[i - 16]);
        } else {
            assert(d[i] == g4[i - 20]);
        }
    }
    lemma_hex_number_concat(g0, g1);
    lemma_hex_number_concat(g0 + g1, g2);
    lemma_hex_number_concat(g0 + g1 + g2, g3);
    lemma_hex_number_concat(g0 + g1 + g2 + g3, g4);
    assert(pow16(4) == 0x10000 && pow16(8) == 0x1_0000_0000 && pow16(12) == 0x1_0000_0000_0000) by {
        reveal_with_fuel(pow16, 13);
    }
    let a = (v / 0x1_0000_0000_0000_0000_0000_0000) % 0x1_0000_0000;
    let b = (v / 0x1_0000_0000_0000_0000_0000) % 0x10000;
    let c = (v / 0x1_0000_0000_0000_0000) % 0x10000;
    let e = (v / 0x1_0000_0000_0000) % 0x10000;
    let f = v % 0x1_0000_0000_0000;
    assert(((((a * 0x10000 + b) * 0x10000 + c) * 0x10000 + e) * 0x1_0000_0000_0000 + f) == v)
        by (bit_vector)
        requires
            a == (v / 0x1_0000_0000_0000_0000_0000_0000) % 0x1_0000_0000,
            b == (v / 0x1_0000_0000_0000_0000_0000) % 0x10000,
            c == (v / 0x1_0000_0000_0000_0000) % 0x10000,
            e == (v / 0x1_0000_0000_0000) % 0x10000,
            f == v % 0x1_0000_0000_0000,
    ;
}

/// The hyphenated text of a UUID is a file name: 36 characters, each a
/// hexadecimal digit or a hyphen, so no `/`.
pub proof fn lemma_uuid_text_name(v: u128)
    ensures
        uuid_text(v).len() == 36,
        !uuid_text(v).contains('/'),
{
    let g0 = hex_text(v as nat / 0x1_0000_0000_0000_0000_0000_0000, 8);
    let g1 = hex_text(v as nat / 0x1_0000_0000_0000_0000_0000, 4);
    let g2 = hex_text(v as nat / 0x1_0000_0000_0000_0000, 4);
    let g3 = hex_text(v as nat / 0x1_0000_0000_0000, 4);
    let g4 = hex_text(v as nat, 12);
    lemma_hex_text(v as nat / 0x1_0000_0000_0000_0000_0000_0000, 8);
    lemma_hex_text(v as nat / 0x1_0000_0000_0000_0000_0000, 4);
    lemma_hex_text(v as nat / 0x1_0000_0000_0000_0000, 4);
    lemma_hex_text(v as nat / 0x1_0000_0000_0000, 4);
    lemma_hex_text(v as nat, 12);
    let t = uuid_text(v);
    assert(t == g0 + seq!['-'] + g1 + seq!['-'] + g2 + seq!['-'] + g3 + seq!['-'] + g4);
    assert forall|i: int| 0 <= i < t.len() implies t[i] != '/' by {
        if i < 8 {
            assert(t[i] == g0[i] && is_hex_digit(g0[i]));
        } else if i == 8 || i == 13 || i == 18 || i == 23 {
        } else if i < 13 {
            assert(t[i] == g1[i - 9] && is_hex_digit(g1[i - 9]));
        } else if i < 18 {
            assert(t[i] == g2[i - 14] && is_hex_digit(g2[i - 14]));
        } else if i < 23 {
            assert(t[i] == g3[i - 19] && is_hex_digit(g3[i - 19]));
        } else {
            assert(t[i] == g4[i - 24] && is_hex_digit(g4[i - 24]));
        }
    }
}

/// Reads the UUID that a text writes, in any of the forms `uuid` reads.
pub fn parse_uuid(s: &str) -> (res: Option<u128>)
    ensures
        res is None <==> parsed_uuid(s@) is None,
        res matches Some(v) ==> parsed_uuid(s@) == Some(v as nat),
{
    match uuid_try_parse(s) {
        Ok(v) => Some(v),
        Err(_) => None,
    }
}

} // verus!
