//! Hash digests: an algorithm paired with its lowercase hexadecimal value.
//!
//! A digest is written `ALGO:HEX`. Parsing fails when the algorithm is
//! unknown, when the hexadecimal part has the wrong length for the
//! algorithm, or when it holds a character that is no hexadecimal digit;
//! upper-case digits are accepted and brought to the lowercase canonical
//! form.
use vstd::prelude::*;

use crate::strutil::{find_char, spec_find, string_eq, substr};

verus! {

/// The digest algorithms a registry publishes.
#[derive(Debug, Eq, PartialEq, Clone, Copy, Structural)]
pub enum HashAlgorithm {
    Md5,
    Sha256,
    Sha384,
    Sha512,
}

impl HashAlgorithm {
    /// The algorithm's name on the wire.
    pub open spec fn spec_name(self) -> Seq<char> {
        match self {
            HashAlgorithm::Md5 => "md5"@,
            HashAlgorithm::Sha256 => "sha256"@,
            HashAlgorithm::Sha384 => "sha384"@,
            HashAlgorithm::Sha512 => "sha512"@,
        }
    }

    /// How many hexadecimal digits the algorithm's digests have.
    pub open spec fn spec_hex_len(self) -> int {
        match self {
            HashAlgorithm::Md5 => 32,
            HashAlgorithm::Sha256 => 64,
            HashAlgorithm::Sha384 => 96,
            HashAlgorithm::Sha512 => 128,
        }
    }

    pub fn name(&self) -> (r: &'static str)
        ensures
            r@ == self.spec_name(),
    {
        match self {
            HashAlgorithm::Md5 => "md5",
            HashAlgorithm::Sha256 => "sha256",
            HashAlgorithm::Sha384 => "sha384",
            HashAlgorithm::Sha512 => "sha512",
        }
    }

    pub fn hex_len(&self) -> (r: usize)
        ensures
            r == self.spec_hex_len(),
    {
        match self {
            HashAlgorithm::Md5 => 32,
            HashAlgorithm::Sha256 => 64,
            HashAlgorithm::Sha384 => 96,
            HashAlgorithm::Sha512 => 128,
        }
    }
}

/// The algorithm named by `s`, if any.
pub open spec fn spec_algorithm_of(s: Seq<char>) -> Option<HashAlgorithm> {
    if s == "md5"@ {
        Some(HashAlgorithm::Md5)
    } else if s == "sha256"@ {
        Some(HashAlgorithm::Sha256)
    } else if s == "sha384"@ {
        Some(HashAlgorithm::Sha384)
    } else if s == "sha512"@ {
        Some(HashAlgorithm::Sha512)
    } else {
        None
    }
}

fn algorithm_of(s: &String) -> (r: Option<HashAlgorithm>)
    ensures
        r == spec_algorithm_of(s@),
{
    if string_eq(s, "md5") {
        Some(HashAlgorithm::Md5)
    } else if string_eq(s, "sha256") {
        Some(HashAlgorithm::Sha256)
    } else if string_eq(s, "sha384") {
        Some(HashAlgorithm::Sha384)
    } else if string_eq(s, "sha512") {
        Some(HashAlgorithm::Sha512)
    } else {
        None
    }
}

/// The lowercase form of `c` as a hexadecimal digit, or nothing when `c`
/// is no hexadecimal digit.
pub open spec fn spec_hex_lower(c: char) -> Option<char> {
    match c {
        '0' => Some('0'),
        '1' => Some('1'),
        '2' => Some('2'),
        '3' => Some('3'),
        '4' => Some('4'),
        '5' => Some('5'),
        '6' => Some('6'),
        '7' => Some('7'),
        '8' => Some('8'),
        '9' => Some('9'),
        'a' => Some('a'),
        'b' => Some('b'),
        'c' => Some('c'),
        'd' => Some('d'),
        'e' => Some('e'),
        'f' => Some('f'),
        'A' => Some('a'),
        'B' => Some('b'),
        'C' => Some('c'),
        'D' => Some('d'),
        'E' => Some('e'),
        'F' => Some('f'),
        _ => None,
    }
}

/// Every character of `s` is a hexadecimal digit.
pub open spec fn all_hex(s: Seq<char>) -> bool {
    forall|i: int| 0 <= i < s.len() ==> (#[trigger] spec_hex_lower(s[i])) is Some
}

/// `s` brought to lowercase, digit by digit.
pub open spec fn spec_hex_canon(s: Seq<char>) -> Seq<char> {
    Seq::new(s.len(), |i: int| spec_hex_lower(s[i])->Some_0)
}

/// Appends the lowercase form of the hexadecimal digit `c`, refusing any
/// other character.
fn append_hex_lower(out: &mut String, c: char) -> (ok: bool)
    ensures
        match spec_hex_lower(c) {
            Some(lc) => ok && final(out)@ == old(out)@ + seq![lc],
            None => !ok && final(out)@ == old(out)@,
        },
{
    match c {
        '0' => {
            proof {
                reveal_strlit("0");
                assert("0"@ =~= seq!['0']);
            }
            out.append("0");
            true
        },
        '1' => {
            proof {
                reveal_strlit("1");
                assert("1"@ =~= seq!['1']);
            }
            out.append("1");
            true
        },
        '2' => {
            proof {
                reveal_strlit("2");
                assert("2"@ =~= seq!['2']);
            }
            out.append("2");
            true
        },
        '3' => {
            proof {
                reveal_strlit("3");
                assert("3"@ =~= seq!['3']);
            }
            out.append("3");
            true
        },
        '4' => {
            proof {
                reveal_strlit("4");
                assert("4"@ =~= seq!['4']);
            }
            out.append("4");
            true
        },
        '5' => {
            proof {
                reveal_strlit("5");
                assert("5"@ =~= seq!['5']);
            }
            out.append("5");
            true
        },
        '6' => {
            proof {
                reveal_strlit("6");
                assert("6"@ =~= seq!['6']);
            }
            out.append("6");
            true
        },
        '7' => {
            proof {
                reveal_strlit("7");
                assert("7"@ =~= seq!['7']);
            }
            out.append("7");
            true
        },
        '8' => {
            proof {
                reveal_strlit("8");
                assert("8"@ =~= seq!['8']);
            }
            out.append("8");
            true
        },
        '9' => {
            proof {
                reveal_strlit("9");
                assert("9"@ =~= seq!['9']);
            }
            out.append("9");
            true
        },
        'a' => {
            proof {
                reveal_strlit("a");
                assert("a"@ =~= seq!['a']);
            }
            out.append("a");
            true
        },
        'b' => {
            proof {
                reveal_strlit("b");
                assert("b"@ =~= seq!['b']);
            }
            out.append("b");
            true
        },
        'c' => {
            proof {
                reveal_strlit("c");
                assert("c"@ =~= seq!['c']);
            }
            out.append("c");
            true
        },
        'd' => {
            proof {
                reveal_strlit("d");
                assert("d"@ =~= seq!['d']);
            }
            out.append("d");
            true
        },
        'e' => {
            proof {
                reveal_strlit("e");
                assert("e"@ =~= seq!['e']);
            }
            out.append("e");
            true
        },
        'f' => {
            proof {
                reveal_strlit("f");
                assert("f"@ =~= seq!['f']);
            }
            out.append("f");
            true
        },
        'A' => {
            proof {
                reveal_strlit("a");
                assert("a"@ =~= seq!['a']);
            }
            out.append("a");
            true
        },
        'B' => {
            proof {
                reveal_strlit("b");
                assert("b"@ =~= seq!['b']);
            }
            out.append("b");
            true
        },
        'C' => {
            proof {
                reveal_strlit("c");
                assert("c"@ =~= seq!['c']);
            }
            out.append("c");
            true
        },
        'D' => {
            proof {
                reveal_strlit("d");
                assert("d"@ =~= seq!['d']);
            }
            out.append("d");
            true
        },
        'E' => {
            proof {
                reveal_strlit("e");
                assert("e"@ =~= seq!['e']);
            }
            out.append("e");
            true
        },
        'F' => {
            proof {
                reveal_strlit("f");
                assert("f"@ =~= seq!['f']);
            }
            out.append("f");
            true
        },
        _ => false,
    }
}

/// A digest: an algorithm and its lowercase hexadecimal value of the
/// algorithm's length.
#[derive(Debug, Eq, PartialEq, Clone)]
pub struct HashDigest {
    pub algorithm: HashAlgorithm,
    pub digest: String,
}

/// Mathematical model of a [`HashDigest`].
pub struct DigestV {
    pub algorithm: HashAlgorithm,
    pub digest: Seq<char>,
}

impl View for HashDigest {
    type V = DigestV;

    open spec fn view(&self) -> DigestV {
        DigestV { algorithm: self.algorithm, digest: self.digest@ }
    }
}

impl DeepView for HashDigest {
    type V = DigestV;

    open spec fn deep_view(&self) -> DigestV {
        self.view()
    }
}

/// A well-formed digest: lowercase hexadecimal of the algorithm's length.
pub open spec fn spec_digest_wf(d: DigestV) -> bool {
    &&& d.digest.len() == d.algorithm.spec_hex_len()
    &&& forall|i: int|
        0 <= i < d.digest.len() ==> (#[trigger] spec_hex_lower(d.digest[i])) == Some(d.digest[i])
}

/// Why a digest failed to parse, with the offending part.
#[derive(Debug, Eq, PartialEq, Clone)]
pub enum HashParseError {
    UnsupportedAlgorithm(String),
    InvalidLength(String),
    InvalidDigest(String),
}

/// Mathematical model of a [`HashParseError`].
pub enum HashParseErrV {
    UnsupportedAlgorithm(Seq<char>),
    InvalidLength(Seq<char>),
    InvalidDigest(Seq<char>),
}

impl View for HashParseError {
    type V = HashParseErrV;

    open spec fn view(&self) -> HashParseErrV {
        match self {
            HashParseError::UnsupportedAlgorithm(n) => HashParseErrV::UnsupportedAlgorithm(n@),
            HashParseError::InvalidLength(h) => HashParseErrV::InvalidLength(h@),
            HashParseError::InvalidDigest(h) => HashParseErrV::InvalidDigest(h@),
        }
    }
}

/// The digest denoted by `s`, in canonical lowercase form.
///
/// `s` is split at its first `:`; the part before names the algorithm and
/// the part after is the hexadecimal value (empty when there is no `:`).
/// An unknown algorithm, a wrong length and a non-hexadecimal character
/// each fail the parse.
pub open spec fn spec_parse_digest(s: Seq<char>) -> Result<DigestV, HashParseErrV> {
    let k = spec_find(s, ':', 0);
    let name = s.take(k);
    let hex = if k < s.len() {
        s.skip(k + 1)
    } else {
        Seq::empty()
    };
    match spec_algorithm_of(name) {
        None => Err(HashParseErrV::UnsupportedAlgorithm(name)),
        Some(algorithm) => if hex.len() != algorithm.spec_hex_len() {
            Err(HashParseErrV::InvalidLength(hex))
        } else if !all_hex(hex) {
            Err(HashParseErrV::InvalidDigest(hex))
        } else {
            Ok(DigestV { algorithm, digest: spec_hex_canon(hex) })
        },
    }
}

/// The canonical written form: `ALGO:HEX`.
pub open spec fn spec_render_digest(d: DigestV) -> Seq<char> {
    d.algorithm.spec_name() + seq![':'] + d.digest
}

impl HashDigest {
    /// Parses `ALGO:HEX` into a digest in canonical lowercase form.
    #[verifier::loop_isolation(false)]
    pub fn from_str(s: &str) -> (r: Result<HashDigest, HashParseError>)
        ensures
            match r {
                Ok(d) => spec_parse_digest(s@) == Ok::<DigestV, HashParseErrV>(d@)
                    && spec_digest_wf(d@),
                Err(e) => spec_parse_digest(s@) == Err::<DigestV, HashParseErrV>(e@),
            },
    {
        let n = s.unicode_len();
        let k = find_char(s, ':', 0);
        let name = substr(s, 0, k);
        let hex = if k < n {
            substr(s, k + 1, n)
        } else {
            String::new()
        };
        proof {
            assert(name@ =~= s@.take(spec_find(s@, ':', 0)));
            if spec_find(s@, ':', 0) < s@.len() {
                assert(hex@ =~= s@.skip(spec_find(s@, ':', 0) + 1));
            } else {
                assert(hex@ =~= Seq::<char>::empty());
            }
        }
        let algorithm = match algorithm_of(&name) {
            Some(a) => a,
            None => {
                return Err(HashParseError::UnsupportedAlgorithm(name));
            },
        };
        let hex_n = hex.as_str().unicode_len();
        if hex_n != algorithm.hex_len() {
            return Err(HashParseError::InvalidLength(hex));
        }
        let mut canon = String::new();
        let mut i: usize = 0;
        while i < hex_n
            invariant
                0 <= i <= hex_n,
                hex_n == hex@.len(),
                forall|j: int| 0 <= j < i ==> (#[trigger] spec_hex_lower(hex@[j])) is Some,
                canon@ =~= spec_hex_canon(hex@.take(i as int)),
            decreases hex_n - i,
        {
            let c = hex.as_str().get_char(i);
            if !append_hex_lower(&mut canon, c) {
                proof {
                    assert(spec_hex_lower(hex@[i as int]) is None);
                    assert(!all_hex(hex@));
                }
                return Err(HashParseError::InvalidDigest(hex));
            }
            proof {
                assert(canon@ =~= spec_hex_canon(hex@.take(i + 1)));
            }
            i = i + 1;
        }
        proof {
            assert(hex@.take(hex_n as int) =~= hex@);
            assert(spec_hex_canon(hex@) =~= canon@);
            assert forall|i2: int| 0 <= i2 < canon@.len() implies (#[trigger] spec_hex_lower(
                canon@[i2],
            )) == Some(canon@[i2]) by {
                assert(canon@[i2] == spec_hex_lower(hex@[i2])->Some_0);
                lemma_hex_lower_idempotent(hex@[i2]);
            }
        }
        Ok(HashDigest { algorithm, digest: canon })
    }

    /// The digest's canonical written form, `ALGO:HEX`.
    pub fn to_display_string(&self) -> (r: String)
        ensures
            r@ == spec_render_digest(self@),
    {
        proof {
            reveal_strlit(":");
            assert(":"@ =~= seq![':']);
        }
        let mut out = String::new();
        out.append(self.algorithm.name());
        out.append(":");
        out.append(self.digest.as_str());
        proof {
            assert(out@ =~= spec_render_digest(self@));
        }
        out
    }
}

/// Lowercasing a hexadecimal digit twice changes nothing more.
proof fn lemma_hex_lower_idempotent(c: char)
    ensures
        spec_hex_lower(c) matches Some(l) ==> spec_hex_lower(l) == Some(l),
{
}

/// A digest the parser accepts is well-formed: lowercase hexadecimal of
/// its algorithm's length.
pub proof fn lemma_parse_digest_wf(s: Seq<char>)
    ensures
        spec_parse_digest(s) matches Ok(d) ==> spec_digest_wf(d),
{
    if spec_parse_digest(s) is Ok {
        let d = spec_parse_digest(s)->Ok_0;
        let k = spec_find(s, ':', 0);
        let hex = if k < s.len() {
            s.skip(k + 1)
        } else {
            Seq::<char>::empty()
        };
        assert(d.digest == spec_hex_canon(hex));
        assert forall|i: int| 0 <= i < d.digest.len() implies (#[trigger] spec_hex_lower(
            d.digest[i],
        )) == Some(d.digest[i]) by {
            assert(spec_hex_lower(hex[i]) is Some);
            lemma_hex_lower_idempotent(hex[i]);
        }
    }
}

/// Rendering a well-formed digest and parsing the result gives the digest
/// back: the canonical lowercase form survives the round trip.
pub proof fn lemma_digest_round_trip(d: DigestV)
    requires
        spec_digest_wf(d),
    ensures
        spec_parse_digest(spec_render_digest(d)) == Ok::<DigestV, HashParseErrV>(d),
{
    let s = spec_render_digest(d);
    let name = d.algorithm.spec_name();
    reveal_strlit("md5");
    reveal_strlit("sha256");
    reveal_strlit("sha384");
    reveal_strlit("sha512");
    assert forall|i: int| 0 <= i < name.len() implies (#[trigger] name[i]) != ':' by {
        lemma_algorithm_name_char(d.algorithm, i);
    }
    assert forall|i: int| 0 <= i < name.len() implies (#[trigger] s[i]) != ':' by {
        assert(s[i] == name[i]);
    }
    assert(s[name.len() as int] == ':');
    lemma_find_char_at(s, name.len() as int);
    assert(s.take(name.len() as int) =~= name);
    assert(s.skip(name.len() as int + 1) =~= d.digest);
    assert(spec_algorithm_of(name) == Some(d.algorithm)) by {
        lemma_algorithm_names_distinct(d.algorithm);
    }
    assert(spec_hex_canon(d.digest) =~= d.digest);
}

/// Within a rendered digest, the first `:` stands right after the name.
proof fn lemma_find_char_at(s: Seq<char>, q: int)
    requires
        0 <= q < s.len(),
        s[q] == ':',
        forall|i: int| 0 <= i < q ==> (#[trigger] s[i]) != ':',
    ensures
        spec_find(s, ':', 0) == q,
{
    lemma_find_char_at_from(s, 0, q);
}

proof fn lemma_find_char_at_from(s: Seq<char>, from: int, q: int)
    requires
        0 <= from <= q < s.len(),
        s[q] == ':',
        forall|i: int| from <= i < q ==> (#[trigger] s[i]) != ':',
    ensures
        spec_find(s, ':', from) == q,
    decreases q - from,
{
    if from < q {
        lemma_find_char_at_from(s, from + 1, q);
    }
}

proof fn lemma_algorithm_name_char(a: HashAlgorithm, i: int)
    ensures
        0 <= i < a.spec_name().len() ==> a.spec_name()[i] != ':',
{
    reveal_strlit("md5");
    reveal_strlit("sha256");
    reveal_strlit("sha384");
    reveal_strlit("sha512");
    match a {
        HashAlgorithm::Md5 => {
            assert("md5"@.len() == 3);
            assert("md5"@[0] == 'm');
            assert("md5"@[1] == 'd');
            assert("md5"@[2] == '5');
        },
        HashAlgorithm::Sha256 => {
            assert("sha256"@.len() == 6);
            assert("sha256"@[0] == 's');
            assert("sha256"@[1] == 'h');
            assert("sha256"@[2] == 'a');
            assert("sha256"@[3] == '2');
            assert("sha256"@[4] == '5');
            assert("sha256"@[5] == '6');
        },
        HashAlgorithm::Sha384 => {
            assert("sha384"@.len() == 6);
            assert("sha384"@[0] == 's');
            assert("sha384"@[1] == 'h');
            assert("sha384"@[2] == 'a');
            assert("sha384"@[3] == '3');
            assert("sha384"@[4] == '8');
            assert("sha384"@[5] == '4');
        },
        HashAlgorithm::Sha512 => {
            assert("sha512"@.len() == 6);
            assert("sha512"@[0] == 's');
            assert("sha512"@[1] == 'h');
            assert("sha512"@[2] == 'a');
            assert("sha512"@[3] == '5');
            assert("sha512"@[4] == '1');
            assert("sha512"@[5] == '2');
        },
    }
}

proof fn lemma_algorithm_names_distinct(a: HashAlgorithm)
    ensures
        spec_algorithm_of(a.spec_name()) == Some(a),
{
    reveal_strlit("md5");
    reveal_strlit("sha256");
    reveal_strlit("sha384");
    reveal_strlit("sha512");
    match a {

        HashAlgorithm::Md5 => {},
        HashAlgorithm::Sha256 => {
            assert("sha256"@.len() == 6);
            assert("md5"@.len() == 3);
        },
        HashAlgorithm::Sha384 => {
            assert("sha384"@.len() == 6);
            assert("md5"@.len() == 3);
            assert("sha384"@[3] == '3');
            assert("sha256"@[3] == '2');
        },
        HashAlgorithm::Sha512 => {
            assert("sha512"@.len() == 6);
            assert("md5"@.len() == 3);
            assert("sha512"@[3] == '5');
            assert("sha256"@[3] == '2');
            assert("sha512"@[4] == '1');
            assert("sha384"@[4] == '8');
        },
    }
}

} // verus!
