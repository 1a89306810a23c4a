//! The partial-content digest: lowercase hex encoding of a hash taken
//! over a bounded prefix of the fetched bytes.

use vstd::prelude::*;
use vstd::slice::slice_subrange;

verus! {

/// Largest number of leading bytes that are ever hashed: 16 MiB.
pub const PREFIX_LIMIT: usize = 16777216;

/// The lowercase hexadecimal digit for a value below sixteen.
pub open spec fn hex_digit(n: int) -> char {
    if n == 0 {
        '0'
    } else if n == 1 {
        '1'
    } else if n == 2 {
        '2'
    } else if n == 3 {
        '3'
    } else if n == 4 {
        '4'
    } else if n == 5 {
        '5'
    } else if n == 6 {
        '6'
    } else if n == 7 {
        '7'
    } else if n == 8 {
        '8'
    } else if n == 9 {
        '9'
    } else if n == 10 {
        'a'
    } else if n == 11 {
        'b'
    } else if n == 12 {
        'c'
    } else if n == 13 {
        'd'
    } else if n == 14 {
        'e'
    } else {
        'f'
    }
}

/// Lowercase hex encoding of a byte sequence: two digits per byte,
/// high nibble first.
pub open spec fn hex_of(data: Seq<u8>) -> Seq<char>
    decreases data.len(),
{
    if data.len() == 0 {
        Seq::empty()
    } else {
        seq![
            hex_digit(data.first() as int / 16),
            hex_digit(data.first() as int % 16),
        ] + hex_of(data.drop_first())
    }
}

pub proof fn lemma_hex_of_len(data: Seq<u8>)
    ensures
        hex_of(data).len() == 2 * data.len(),
    decreases data.len(),
{
    if data.len() > 0 {
        lemma_hex_of_len(data.drop_first());
    }
}

proof fn lemma_hex_of_push(data: Seq<u8>, b: u8)
    ensures
        hex_of(data.push(b)) == hex_of(data) + seq![
            hex_digit(b as int / 16),
            hex_digit(b as int % 16),
        ],
    decreases data.len(),
{
    if data.len() == 0 {
        assert(data.push(b).first() == b);
        assert(data.push(b).drop_first() =~= Seq::<u8>::empty());
        assert(hex_of(data.push(b).drop_first()) =~= Seq::<char>::empty());
        assert(hex_of(data.push(b)) =~= hex_of(data) + seq![
            hex_digit(b as int / 16),
            hex_digit(b as int % 16),
        ]);
    } else {
        assert(data.push(b).drop_first() =~= data.drop_first().push(b));
        lemma_hex_of_push(data.drop_first(), b);
        assert(hex_of(data.push(b)) =~= hex_of(data) + seq![
            hex_digit(b as int / 16),
            hex_digit(b as int % 16),
        ]);
    }
}

/// Relies on `String::push`: appends exactly the given character.
#[verifier::external_body]
fn push_char(s: &mut String, c: char)
    ensures
        final(s)@ == old(s)@ + seq![c],
{
    s.push(c)
}

/// The lowercase hexadecimal digit character for `n`.
fn hex_digit_char(n: u8) -> (c: char)
    requires
        n < 16,
    ensures
        c == hex_digit(n as int),
{
    match n {
        0 => '0',
        1 => '1',
        2 => '2',
        3 => '3',
        4 => '4',
        5 => '5',
        6 => '6',
        7 => '7',
        8 => '8',
        9 => '9',
        10 => 'a',
        11 => 'b',
        12 => 'c',
        13 => 'd',
        14 => 'e',
        _ => 'f',
    }
}

/// Encodes a byte slice as lowercase hex, two digits per byte.
pub fn hex_lower(data: &[u8]) -> (r: String)
    ensures
        r@ == hex_of(data@),
        r@.len() == 2 * data@.len(),
{
    let mut r = String::new();
    let mut i: usize = 0;
    proof {
        assert(data@.take(0) =~= Seq::empty());
    }
    while i < data.len()
        invariant
            i <= data@.len(),
            r@ == hex_of(data@.take(i as int)),
        decreases data@.len() - i,
    {
        let b = data[i];
        push_char(&mut r, hex_digit_char(b / 16));
        push_char(&mut r, hex_digit_char(b % 16));
        proof {
            assert(data@.take(i + 1) =~= data@.take(i as int).push(data@[i as int]));
            lemma_hex_of_push(data@.take(i as int), data@[i as int]);
        }
        i = i + 1;
    }
    proof {
        assert(data@.take(data@.len() as int) =~= data@);
        lemma_hex_of_len(data@);
    }
    r
}

/// The MD5 digest of a byte sequence, as sixteen bytes.
pub uninterp spec fn md5_of(data: Seq<u8>) -> Seq<u8>;

/// Relies on `md5::compute`: a sixteen-byte digest that depends on the
/// input bytes alone.
#[verifier::external_body]
fn md5_digest(data: &[u8]) -> (r: Vec<u8>)
    ensures
        r@ == md5_of(data@),
        r@.len() == 16,
{
    md5::compute(data).0.to_vec()
}

/// The part of a byte sequence that the fingerprint covers: everything
/// up to `PREFIX_LIMIT` bytes.
pub open spec fn prefix_of(data: Seq<u8>) -> Seq<u8> {
    if data.len() <= PREFIX_LIMIT {
        data
    } else {
        data.take(PREFIX_LIMIT as int)
    }
}

/// The content fingerprint: lowercase hex MD5 of the bounded prefix.
pub open spec fn prefix_digest(data: Seq<u8>) -> Seq<char> {
    hex_of(md5_of(prefix_of(data)))
}

/// No matter how large the fetched body is, the hashed prefix stays
/// within the 16 MiB bound.
pub proof fn lemma_prefix_bounded(data: Seq<u8>)
    ensures
        prefix_of(data).len() <= PREFIX_LIMIT,
{
}

/// Computes the content fingerprint of a fetched body: the lowercase
/// hex MD5 digest of at most the first 16 MiB.
pub fn prefix_hash(data: &[u8]) -> (r: String)
    ensures
        r@ == prefix_digest(data@),
        r@.len() == 32,
{
    let digest = if data.len() <= PREFIX_LIMIT {
        md5_digest(data)
    } else {
        md5_digest(slice_subrange(data, 0, PREFIX_LIMIT))
    };
    hex_lower(digest.as_slice())
}

/// The range header value that asks a server for exactly the first
/// `PREFIX_LIMIT` bytes of a resource.
pub fn prefix_range_header() -> (r: String)
    ensures
        r@ == "bytes=0-16777215"@,
{
    String::from_str("bytes=0-16777215")
}

} // verus!
