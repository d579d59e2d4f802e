use vstd::prelude::*;
use vstd::string::StringExecFns;
use sha1::Digest;
use rsa::pkcs8::DecodePublicKey;

verus! {

#[verifier::external_type_specification]
#[verifier::external_body]
pub struct ExRsaPublicKey(rsa::RsaPublicKey);

/// The SHA-1 digest of `data`.
pub uninterp spec fn sha1_of(data: Seq<u8>) -> Seq<u8>;

/// Relies on sha1's `Sha1::digest`: the 20-byte SHA-1 digest of `data`.
#[verifier::external_body]
pub(crate) fn sha1_digest(data: &[u8]) -> (r: Vec<u8>)
    ensures
        r@ == sha1_of(data@),
        r@.len() == 20,
{
    sha1::Sha1::digest(data).to_vec()
}

/// Relies on `rand::random`: 16 random bytes.
#[verifier::external_body]
pub(crate) fn random_secret() -> (r: [u8; 16]) {
    rand::random()
}

/// Whether `der` is a DER subject-public-key-info that holds an RSA public key.
pub uninterp spec fn rsa_key_parses(der: Seq<u8>) -> bool;

/// Relies on rsa's `RsaPublicKey::from_public_key_der`: the key that a DER
/// subject-public-key-info holds, if it holds one.
#[verifier::external_body]
pub(crate) fn parse_public_key(der: &[u8]) -> (r: Option<rsa::RsaPublicKey>)
    ensures
        r is Some <==> rsa_key_parses(der@),
{
    rsa::RsaPublicKey::from_public_key_der(der).ok()
}

/// Relies on rsa's `RsaPublicKey::encrypt` with PKCS#1 v1.5 padding and the thread's
/// random generator; the message may be too long for the key.
#[verifier::external_body]
pub(crate) fn rsa_encrypt(key: &rsa::RsaPublicKey, data: &[u8]) -> (r: Option<Vec<u8>>) {
    key.encrypt(&mut rand::thread_rng(), rsa::Pkcs1v15Encrypt, data).ok()
}

/// The two's-complement negation of the big-endian number `d`, from its last byte
/// on, with `carry` to add to that byte after inverting it.
pub open spec fn negate_from(d: Seq<u8>, carry: bool) -> Seq<u8>
    decreases d.len(),
{
    if d.len() == 0 {
        seq![]
    } else {
        let b = (255 - d.last()) as u8;
        if carry && b == 255 {
            negate_from(d.drop_last(), true).push(0)
        } else if carry {
            negate_from(d.drop_last(), false).push((b + 1) as u8)
        } else {
            negate_from(d.drop_last(), false).push(b)
        }
    }
}

/// Each byte as its high and low 4-bit halves.
pub open spec fn nibbles(d: Seq<u8>) -> Seq<u8>
    decreases d.len(),
{
    if d.len() == 0 {
        seq![]
    } else {
        nibbles(d.drop_last()) + seq![d.last() / 16, d.last() % 16]
    }
}

/// `s` without its leading zeros.
pub open spec fn strip_zeros(s: Seq<u8>) -> Seq<u8>
    decreases s.len(),
{
    if s.len() > 0 && s[0] == 0 {
        strip_zeros(s.drop_first())
    } else {
        s
    }
}

/// The lower-case hex digit of `n`.
pub open spec fn hex_char(n: u8) -> char {
    if n == 0 {
        '0'
    } else if n == 1 {
        '1'
    } else if n == 2 {
        '2'
    } else if n == 3 {
        '3'
    } else if n == 4 {
        '4'
    } else if n == 5 {
        '5'
    } else if n == 6 {
        '6'
    } else if n == 7 {
        '7'
    } else if n == 8 {
        '8'
    } else if n == 9 {
        '9'
    } else if n == 10 {
        'a'
    } else if n == 11 {
        'b'
    } else if n == 12 {
        'c'
    } else if n == 13 {
        'd'
    } else if n == 14 {
        'e'
    } else {
        'f'
    }
}

pub open spec fn hex_chars(s: Seq<u8>) -> Seq<char> {
    s.map_values(|n: u8| hex_char(n))
}

/// The signed hex text of a digest: read as a big-endian two's-complement number,
/// its magnitude in lower-case hex without leading zeros ("0" for zero), after a
/// '-' when it is negative.
pub open spec fn signed_hex(d: Seq<u8>) -> Seq<char> {
    let negative = d.len() > 0 && d[0] >= 128;
    let magnitude = if negative {
        negate_from(d, true)
    } else {
        d
    };
    let digits = hex_chars(strip_zeros(nibbles(magnitude)));
    let body = if digits.len() == 0 {
        seq!['0']
    } else {
        digits
    };
    if negative {
        seq!['-'] + body
    } else {
        body
    }
}

fn hex_str(n: u8) -> (r: &'static str)
    requires
        n < 16,
    ensures
        r@ == seq![hex_char(n)],
{
    proof {
        reveal_strlit("0");
        reveal_strlit("1");
        reveal_strlit("2");
        reveal_strlit("3");
        reveal_strlit("4");
        reveal_strlit("5");
        reveal_strlit("6");
        reveal_strlit("7");
        reveal_strlit("8");
        reveal_strlit("9");
        reveal_strlit("a");
        reveal_strlit("b");
        reveal_strlit("c");
        reveal_strlit("d");
        reveal_strlit("e");
        reveal_strlit("f");
    }
    let r = if n == 0 {
        "0"
    } else if n == 1 {
        "1"
    } else if n == 2 {
        "2"
    } else if n == 3 {
        "3"
    } else if n == 4 {
        "4"
    } else if n == 5 {
        "5"
    } else if n == 6 {
        "6"
    } else if n == 7 {
        "7"
    } else if n == 8 {
        "8"
    } else if n == 9 {
        "9"
    } else if n == 10 {
        "a"
    } else if n == 11 {
        "b"
    } else if n == 12 {
        "c"
    } else if n == 13 {
        "d"
    } else if n == 14 {
        "e"
    } else {
        "f"
    };
    assert(r@ =~= seq![hex_char(n)]);
    r
}

/// The two's-complement negation of `d`.
fn negate(d: &[u8]) -> (r: Vec<u8>)
    ensures
        r@ == negate_from(d@, true),
{
    let mut m: Vec<u8> = Vec::new();
    let mut j: usize = 0;
    while j < d.len()
        invariant
            j <= d@.len(),
            m@ == d@.take(j as int),
        decreases d@.len() - j,
    {
        m.push(d[j]);
        j = j + 1;
        assert(m@ =~= d@.take(j as int));
    }
    assert(d@.take(d@.len() as int) =~= d@);
    let mut i: usize = m.len();
    let mut carry = true;
    assert(m@.skip(i as int) =~= seq![]);
    assert(negate_from(d@, true) =~= negate_from(d@.take(i as int), carry) + m@.skip(i as int));
    while i > 0
        invariant
            i <= d@.len(),
            m@.len() == d@.len(),
            m@.take(i as int) == d@.take(i as int),
            negate_from(d@, true) == negate_from(d@.take(i as int), carry) + m@.skip(i as int),
        decreases i,
    {
        let ghost t = d@.take(i as int);
        assert(t.drop_last() =~= d@.take(i - 1));
        assert(t.last() == m@[i - 1]);
        let b = 255 - m[i - 1];
        let ghost old_m = m@;
        let ghost old_carry = carry;
        if carry && b == 255 {
            m.set(i - 1, 0);
        } else if carry {
            m.set(i - 1, b + 1);
            carry = false;
        } else {
            m.set(i - 1, b);
        }
        i = i - 1;
        assert(m@.skip(i as int) =~= seq![m@[i as int]] + old_m.skip(i + 1));
        assert(m@.take(i as int) =~= old_m.take(i as int));
        assert(negate_from(t, old_carry) =~= negate_from(d@.take(i as int), carry).push(
            m@[i as int],
        ));
        assert(negate_from(d@, true) =~= negate_from(d@.take(i as int), carry) + m@.skip(
            i as int,
        ));
    }
    assert(m@.skip(0) =~= m@);
    assert(negate_from(d@.take(0), carry) =~= seq![]);
    m
}

/// The signed hex text of the digest `hash`.
pub fn hex_digest(hash: &[u8]) -> (r: String)
    ensures
        r@ == signed_hex(hash@),
{
    let negative = hash.len() > 0 && hash[0] >= 128;
    let magnitude: Vec<u8> = if negative {
        negate(hash)
    } else {
        let mut c: Vec<u8> = Vec::new();
        let mut j: usize = 0;
        while j < hash.len()
            invariant
                j <= hash@.len(),
                c@ == hash@.take(j as int),
            decreases hash@.len() - j,
        {
            c.push(hash[j]);
            j = j + 1;
            assert(c@ =~= hash@.take(j as int));
        }
        assert(hash@.take(hash@.len() as int) =~= hash@);
        c
    };
    let mut nib: Vec<u8> = Vec::new();
    let mut i: usize = 0;
    while i < magnitude.len()
        invariant
            i <= magnitude@.len(),
            nib@ == nibbles(magnitude@.take(i as int)),
            forall|x: int| 0 <= x < nib@.len() ==> nib@[x] < 16,
        decreases magnitude@.len() - i,
    {
        let b = magnitude[i];
        nib.push(b / 16);
        nib.push(b % 16);
        let ghost t = magnitude@.take(i + 1);
        assert(t.drop_last() =~= magnitude@.take(i as int));
        i = i + 1;
        assert(nib@ =~= nibbles(magnitude@.take(i as int)));
    }
    assert(magnitude@.take(magnitude@.len() as int) =~= magnitude@);
    let mut k: usize = 0;
    assert(nib@.skip(0) =~= nib@);
    while k < nib.len() && nib[k] == 0
        invariant
            k <= nib@.len(),
            strip_zeros(nib@) == strip_zeros(nib@.skip(k as int)),
            forall|x: int| 0 <= x < nib@.len() ==> nib@[x] < 16,
        decreases nib@.len() - k,
    {
        assert(nib@.skip(k as int).drop_first() =~= nib@.skip(k + 1));
        k = k + 1;
    }
    let ghost digits = strip_zeros(nib@);
    assert(digits =~= nib@.skip(k as int));
    let mut s = String::new();
    if negative {
        proof {
            reveal_strlit("-");
        }
        s.append("-");
    }
    let ghost head = s@;
    if k == nib.len() {
        proof {
            reveal_strlit("0");
        }
        s.append("0");
        assert(hex_chars(digits).len() == 0);
        assert(s@ =~= signed_hex(hash@));
        return s;
    }
    let mut j: usize = k;
    while j < nib.len()
        invariant
            k <= j <= nib@.len(),
            s@ == head + hex_chars(nib@.subrange(k as int, j as int)),
            forall|x: int| 0 <= x < nib@.len() ==> nib@[x] < 16,
        decreases nib@.len() - j,
    {
        s.append(hex_str(nib[j]));
        j = j + 1;
        assert(hex_chars(nib@.subrange(k as int, j as int)) =~= hex_chars(
            nib@.subrange(k as int, j - 1),
        ).push(hex_char(nib@[j - 1])));
    }
    assert(nib@.subrange(k as int, nib@.len() as int) =~= digits);
    assert(s@ =~= signed_hex(hash@));
    s
}

} // verus!
