//! Content-addressed blob paths: an uploaded file is stored under the
//! first two hex digits of its SHA-256 digest as a directory, and the full
//! digest (with the declared extension, when known) as its file name.
//! Identical bytes therefore map to one path, and uploads never overwrite.

use vstd::prelude::*;

use sha2::{Digest, Sha256};

verus! {

/// The hexadecimal character for a value below 16.
pub open spec fn hex_digit_char(d: nat) -> char
    recommends
        d < 16,
{
    if d == 0 {
        '0'
    } else if d == 1 {
        '1'
    } else if d == 2 {
        '2'
    } else if d == 3 {
        '3'
    } else if d == 4 {
        '4'
    } else if d == 5 {
        '5'
    } else if d == 6 {
        '6'
    } else if d == 7 {
        '7'
    } else if d == 8 {
        '8'
    } else if d == 9 {
        '9'
    } else if d == 10 {
        'a'
    } else if d == 11 {
        'b'
    } else if d == 12 {
        'c'
    } else if d == 13 {
        'd'
    } else if d == 14 {
        'e'
    } else {
        'f'
    }
}

/// The two lowercase hex digits of one byte.
pub open spec fn hex_of_byte(b: u8) -> Seq<char> {
    seq![hex_digit_char((b / 16) as nat), hex_digit_char((b % 16) as nat)]
}

/// The lowercase hex rendering of a byte string.
pub open spec fn hex_of(data: Seq<u8>) -> Seq<char>
    decreases data.len(),
{
    if data.len() == 0 {
        Seq::empty()
    } else {
        hex_of(data.drop_last()) + hex_of_byte(data.last())
    }
}

fn hex_digit_str(d: u8) -> (r: &'static str)
    requires
        d < 16,
    ensures
        r@ == seq![hex_digit_char(d as nat)],
{
    proof {
        reveal_strlit("0");
        reveal_strlit("1");
        reveal_strlit("2");
        reveal_strlit("3");
        reveal_strlit("4");
        reveal_strlit("5");
        reveal_strlit("6");
        reveal_strlit("7");
        reveal_strlit("8");
        reveal_strlit("9");
        reveal_strlit("a");
        reveal_strlit("b");
        reveal_strlit("c");
        reveal_strlit("d");
        reveal_strlit("e");
        reveal_strlit("f");
    }
    let r = if d == 0 {
        "0"
    } else if d == 1 {
        "1"
    } else if d == 2 {
        "2"
    } else if d == 3 {
        "3"
    } else if d == 4 {
        "4"
    } else if d == 5 {
        "5"
    } else if d == 6 {
        "6"
    } else if d == 7 {
        "7"
    } else if d == 8 {
        "8"
    } else if d == 9 {
        "9"
    } else if d == 10 {
        "a"
    } else if d == 11 {
        "b"
    } else if d == 12 {
        "c"
    } else if d == 13 {
        "d"
    } else if d == 14 {
        "e"
    } else {
        "f"
    };
    proof {
        assert(r@ =~= seq![hex_digit_char(d as nat)]);
    }
    r
}

/// Appends the two hex digits of one byte.
fn push_hex_byte(b: u8, s: &mut String)
    ensures
        final(s)@ == old(s)@ + hex_of_byte(b),
{
    s.append(hex_digit_str(b / 16));
    s.append(hex_digit_str(b % 16));
    proof {
        assert(final(s)@ =~= old(s)@ + hex_of_byte(b));
    }
}

/// Appends the hex rendering of a byte string.
fn push_hex(data: &Vec<u8>, s: &mut String)
    ensures
        final(s)@ == old(s)@ + hex_of(data@),
{
    let mut i: usize = 0;
    while i < data.len()
        invariant
            0 <= i <= data@.len(),
            s@ == old(s)@ + hex_of(data@.subrange(0, i as int)),
        decreases data@.len() - i,
    {
        let ghost pre = data@.subrange(0, i as int);
        let ghost pre1 = data@.subrange(0, i as int + 1);
        push_hex_byte(data[i], s);
        proof {
            assert(pre1.drop_last() =~= pre);
            assert(pre1.last() == data@[i as int]);
            assert(s@ =~= old(s)@ + hex_of(pre1));
        }
        i = i + 1;
    }
    proof {
        assert(data@.subrange(0, data@.len() as int) =~= data@);
    }
}

/// The SHA-256 digest of a byte string, named: the digest is a function of
/// the input bytes alone.
pub uninterp spec fn sha256_of(data: Seq<u8>) -> Seq<u8>;

/// Relies on sha2's `Sha256` through `Digest::digest`: the digest of the
/// input bytes, 32 bytes long, depending on the input alone.
#[verifier::external_body]
fn sha256_digest(data: &Vec<u8>) -> (r: Vec<u8>)
    ensures
        r@ == sha256_of(data@),
        r@.len() == 32,
{
    Sha256::digest(data.as_slice()).to_vec()
}

/// The blob-store path for a digest: two-hex-digit directory, full-digest
/// file name, dot extension when one is known.
pub open spec fn content_path_spec(digest: Seq<u8>, extension: Option<Seq<char>>) -> Seq<char>
    recommends
        digest.len() > 0,
{
    hex_of_byte(digest[0]) + seq!['/'] + hex_of(digest) + (match extension {
        Some(e) => seq!['.'] + e,
        None => Seq::empty(),
    })
}

/// Computes the content-addressed path an uploaded file is stored under:
/// the path depends on the file's bytes (via their SHA-256 digest) and the
/// declared extension alone, so re-uploading identical bytes reuses the
/// same path and nothing is ever displaced.
pub fn upload_file(data: &Vec<u8>, extension: Option<&str>) -> (path: String)
    ensures
        path@ == content_path_spec(
            sha256_of(data@),
            match extension {
                Some(e) => Some(e@),
                None => None,
            },
        ),
{
    let digest = sha256_digest(data);
    let mut path = String::new();
    push_hex_byte(digest[0], &mut path);
    path.append("/");
    push_hex(&digest, &mut path);
    match extension {
        Some(e) => {
            path.append(".");
            path.append(e);
        },
        None => {},
    }
    proof {
        reveal_strlit("/");
        reveal_strlit(".");
        assert(path@ =~= content_path_spec(
            sha256_of(data@),
            match extension {
                Some(e) => Some(e@),
                None => None,
            },
        ));
    }
    path
}

} // verus!
