//! The registry of textual base encodings: the `Base` enum, the sigil
//! character identifying each base, and the fixed detection order.
use vstd::prelude::*;

verus! {

use vstd::string::StringExecFns;

/// One textual base encoding scheme: an alphabet together with its padding
/// rule. Each base is identified by a unique one-character sigil used as a
/// self-describing prefix, and the order of the variants below is the fixed
/// precedence order that speculative detection walks: the identity scheme
/// first, then increasing alphabet size, with lowercase and unpadded
/// variants before their uppercase and padded counterparts.
#[derive(Clone, Copy, Debug, Hash, PartialEq, Eq, Structural)]
pub enum Base {
    /// Raw bytes kept as they are (sigil `\u{0}`)
    Identity,
    /// Alphabet `01` (sigil `0`)
    Base2,
    /// Alphabet `0-7` (sigil `7`)
    Base8,
    /// Alphabet `0-9` (sigil `9`)
    Base10,
    /// Lowercase hexadecimal (sigil `f`)
    Base16Lower,
    /// Uppercase hexadecimal (sigil `F`)
    Base16Upper,
    /// RFC 4648 base32, lowercase, no padding (sigil `b`)
    Base32Lower,
    /// RFC 4648 base32, uppercase, no padding (sigil `B`)
    Base32Upper,
    /// RFC 4648 base32, lowercase, padded (sigil `c`)
    Base32PadLower,
    /// RFC 4648 base32, uppercase, padded (sigil `C`)
    Base32PadUpper,
    /// RFC 4648 base32hex, lowercase, no padding (sigil `v`)
    Base32HexLower,
    /// RFC 4648 base32hex, uppercase, no padding (sigil `V`)
    Base32HexUpper,
    /// RFC 4648 base32hex, lowercase, padded (sigil `t`)
    Base32HexPadLower,
    /// RFC 4648 base32hex, uppercase, padded (sigil `T`)
    Base32HexPadUpper,
    /// z-base-32 (sigil `h`)
    Base32Z,
    /// Base36, lowercase (sigil `k`)
    Base36Lower,
    /// Base36, uppercase (sigil `K`)
    Base36Upper,
    /// Base58, Flickr alphabet (sigil `Z`)
    Base58Flickr,
    /// Base58, Bitcoin alphabet (sigil `z`)
    Base58Btc,
    /// RFC 4648 base64, no padding (sigil `m`)
    Base64,
    /// RFC 4648 base64, padded (sigil `M`)
    Base64Pad,
    /// RFC 4648 base64url, no padding (sigil `u`)
    Base64Url,
    /// RFC 4648 base64url, padded (sigil `U`)
    Base64UrlPad,
    /// One emoji per byte (sigil `\u{1F680}`)
    Base256Emoji,
}

impl Base {
    /// The sigil character of this base.
    pub open spec fn code_spec(self) -> char {
        match self {
            Base::Identity => '\u{0}',
            Base::Base2 => '0',
            Base::Base8 => '7',
            Base::Base10 => '9',
            Base::Base16Lower => 'f',
            Base::Base16Upper => 'F',
            Base::Base32Lower => 'b',
            Base::Base32Upper => 'B',
            Base::Base32PadLower => 'c',
            Base::Base32PadUpper => 'C',
            Base::Base32HexLower => 'v',
            Base::Base32HexUpper => 'V',
            Base::Base32HexPadLower => 't',
            Base::Base32HexPadUpper => 'T',
            Base::Base32Z => 'h',
            Base::Base36Lower => 'k',
            Base::Base36Upper => 'K',
            Base::Base58Flickr => 'Z',
            Base::Base58Btc => 'z',
            Base::Base64 => 'm',
            Base::Base64Pad => 'M',
            Base::Base64Url => 'u',
            Base::Base64UrlPad => 'U',
            Base::Base256Emoji => '\u{1F680}',
        }
    }

    /// The base identified by a sigil character, if any.
    pub open spec fn from_code_spec(c: char) -> Option<Base> {
        match c {
            '\u{0}' => Some(Base::Identity),
            '0' => Some(Base::Base2),
            '7' => Some(Base::Base8),
            '9' => Some(Base::Base10),
            'f' => Some(Base::Base16Lower),
            'F' => Some(Base::Base16Upper),
            'b' => Some(Base::Base32Lower),
            'B' => Some(Base::Base32Upper),
            'c' => Some(Base::Base32PadLower),
            'C' => Some(Base::Base32PadUpper),
            'v' => Some(Base::Base32HexLower),
            'V' => Some(Base::Base32HexUpper),
            't' => Some(Base::Base32HexPadLower),
            'T' => Some(Base::Base32HexPadUpper),
            'h' => Some(Base::Base32Z),
            'k' => Some(Base::Base36Lower),
            'K' => Some(Base::Base36Upper),
            'Z' => Some(Base::Base58Flickr),
            'z' => Some(Base::Base58Btc),
            'm' => Some(Base::Base64),
            'M' => Some(Base::Base64Pad),
            'u' => Some(Base::Base64Url),
            'U' => Some(Base::Base64UrlPad),
            '\u{1F680}' => Some(Base::Base256Emoji),
            _ => None,
        }
    }

    /// The position of this base in the fixed detection order.
    pub open spec fn index_spec(self) -> int {
        match self {
            Base::Identity => 0,
            Base::Base2 => 1,
            Base::Base8 => 2,
            Base::Base10 => 3,
            Base::Base16Lower => 4,
            Base::Base16Upper => 5,
            Base::Base32Lower => 6,
            Base::Base32Upper => 7,
            Base::Base32PadLower => 8,
            Base::Base32PadUpper => 9,
            Base::Base32HexLower => 10,
            Base::Base32HexUpper => 11,
            Base::Base32HexPadLower => 12,
            Base::Base32HexPadUpper => 13,
            Base::Base32Z => 14,
            Base::Base36Lower => 15,
            Base::Base36Upper => 16,
            Base::Base58Flickr => 17,
            Base::Base58Btc => 18,
            Base::Base64 => 19,
            Base::Base64Pad => 20,
            Base::Base64Url => 21,
            Base::Base64UrlPad => 22,
            Base::Base256Emoji => 23,
        }
    }

    /// The base that follows this one in the fixed detection order, or
    /// `None` for the last one.
    pub open spec fn next_spec(self) -> Option<Base> {
        match self {
            Base::Identity => Some(Base::Base2),
            Base::Base2 => Some(Base::Base8),
            Base::Base8 => Some(Base::Base10),
            Base::Base10 => Some(Base::Base16Lower),
            Base::Base16Lower => Some(Base::Base16Upper),
            Base::Base16Upper => Some(Base::Base32Lower),
            Base::Base32Lower => Some(Base::Base32Upper),
            Base::Base32Upper => Some(Base::Base32PadLower),
            Base::Base32PadLower => Some(Base::Base32PadUpper),
            Base::Base32PadUpper => Some(Base::Base32HexLower),
            Base::Base32HexLower => Some(Base::Base32HexUpper),
            Base::Base32HexUpper => Some(Base::Base32HexPadLower),
            Base::Base32HexPadLower => Some(Base::Base32HexPadUpper),
            Base::Base32HexPadUpper => Some(Base::Base32Z),
            Base::Base32Z => Some(Base::Base36Lower),
            Base::Base36Lower => Some(Base::Base36Upper),
            Base::Base36Upper => Some(Base::Base58Flickr),
            Base::Base58Flickr => Some(Base::Base58Btc),
            Base::Base58Btc => Some(Base::Base64),
            Base::Base64 => Some(Base::Base64Pad),
            Base::Base64Pad => Some(Base::Base64Url),
            Base::Base64Url => Some(Base::Base64UrlPad),
            Base::Base64UrlPad => Some(Base::Base256Emoji),
            Base::Base256Emoji => None,
        }
    }

    /// The sigil character of this base.
    pub fn code(&self) -> (r: char)
        ensures
            r == self.code_spec(),
    {
        match self {
            Base::Identity => '\u{0}',
            Base::Base2 => '0',
            Base::Base8 => '7',
            Base::Base10 => '9',
            Base::Base16Lower => 'f',
            Base::Base16Upper => 'F',
            Base::Base32Lower => 'b',
            Base::Base32Upper => 'B',
            Base::Base32PadLower => 'c',
            Base::Base32PadUpper => 'C',
            Base::Base32HexLower => 'v',
            Base::Base32HexUpper => 'V',
            Base::Base32HexPadLower => 't',
            Base::Base32HexPadUpper => 'T',
            Base::Base32Z => 'h',
            Base::Base36Lower => 'k',
            Base::Base36Upper => 'K',
            Base::Base58Flickr => 'Z',
            Base::Base58Btc => 'z',
            Base::Base64 => 'm',
            Base::Base64Pad => 'M',
            Base::Base64Url => 'u',
            Base::Base64UrlPad => 'U',
            Base::Base256Emoji => '\u{1F680}',
        }
    }

    /// The base identified by a sigil character, if any.
    pub fn from_code(c: char) -> (r: Option<Base>)
        ensures
            r == Base::from_code_spec(c),
    {
        match c {
            '\u{0}' => Some(Base::Identity),
            '0' => Some(Base::Base2),
            '7' => Some(Base::Base8),
            '9' => Some(Base::Base10),
            'f' => Some(Base::Base16Lower),
            'F' => Some(Base::Base16Upper),
            'b' => Some(Base::Base32Lower),
            'B' => Some(Base::Base32Upper),
            'c' => Some(Base::Base32PadLower),
            'C' => Some(Base::Base32PadUpper),
            'v' => Some(Base::Base32HexLower),
            'V' => Some(Base::Base32HexUpper),
            't' => Some(Base::Base32HexPadLower),
            'T' => Some(Base::Base32HexPadUpper),
            'h' => Some(Base::Base32Z),
            'k' => Some(Base::Base36Lower),
            'K' => Some(Base::Base36Upper),
            'Z' => Some(Base::Base58Flickr),
            'z' => Some(Base::Base58Btc),
            'm' => Some(Base::Base64),
            'M' => Some(Base::Base64Pad),
            'u' => Some(Base::Base64Url),
            'U' => Some(Base::Base64UrlPad),
            '\u{1F680}' => Some(Base::Base256Emoji),
            _ => None,
        }
    }

    /// The sigil of this base as a one-character string.
    pub fn code_str(&self) -> (r: &'static str)
        ensures
            r@ == seq![self.code_spec()],
    {
        match self {
            Base::Identity => {
                proof {
                    reveal_strlit("\u{0}");
                    assert("\u{0}"@ =~= seq!['\u{0}']);
                }
                "\u{0}"
            },
            Base::Base2 => {
                proof {
                    reveal_strlit("0");
                    assert("0"@ =~= seq!['0']);
                }
                "0"
            },
            Base::Base8 => {
                proof {
                    reveal_strlit("7");
                    assert("7"@ =~= seq!['7']);
                }
                "7"
            },
            Base::Base10 => {
                proof {
                    reveal_strlit("9");
                    assert("9"@ =~= seq!['9']);
                }
                "9"
            },
            Base::Base16Lower => {
                proof {
                    reveal_strlit("f");
                    assert("f"@ =~= seq!['f']);
                }
                "f"
            },
            Base::Base16Upper => {
                proof {
                    reveal_strlit("F");
                    assert("F"@ =~= seq!['F']);
                }
                "F"
            },
            Base::Base32Lower => {
                proof {
                    reveal_strlit("b");
                    assert("b"@ =~= seq!['b']);
                }
                "b"
            },
            Base::Base32Upper => {
                proof {
                    reveal_strlit("B");
                    assert("B"@ =~= seq!['B']);
                }
                "B"
            },
            Base::Base32PadLower => {
                proof {
                    reveal_strlit("c");
                    assert("c"@ =~= seq!['c']);
                }
                "c"
            },
            Base::Base32PadUpper => {
                proof {
                    reveal_strlit("C");
                    assert("C"@ =~= seq!['C']);
                }
                "C"
            },
            Base::Base32HexLower => {
                proof {
                    reveal_strlit("v");
                    assert("v"@ =~= seq!['v']);
                }
                "v"
            },
            Base::Base32HexUpper => {
                proof {
                    reveal_strlit("V");
                    assert("V"@ =~= seq!['V']);
                }
                "V"
            },
            Base::Base32HexPadLower => {
                proof {
                    reveal_strlit("t");
                    assert("t"@ =~= seq!['t']);
                }
                "t"
            },
            Base::Base32HexPadUpper => {
                proof {
                    reveal_strlit("T");
                    assert("T"@ =~= seq!['T']);
                }
                "T"
            },
            Base::Base32Z => {
                proof {
                    reveal_strlit("h");
                    assert("h"@ =~= seq!['h']);
                }
                "h"
            },
            Base::Base36Lower => {
                proof {
                    reveal_strlit("k");
                    assert("k"@ =~= seq!['k']);
                }
                "k"
            },
            Base::Base36Upper => {
                proof {
                    reveal_strlit("K");
                    assert("K"@ =~= seq!['K']);
                }
                "K"
            },
            Base::Base58Flickr => {
                proof {
                    reveal_strlit("Z");
                    assert("Z"@ =~= seq!['Z']);
                }
                "Z"
            },
            Base::Base58Btc => {
                proof {
                    reveal_strlit("z");
                    assert("z"@ =~= seq!['z']);
                }
                "z"
            },
            Base::Base64 => {
                proof {
                    reveal_strlit("m");
                    assert("m"@ =~= seq!['m']);
                }
                "m"
            },
            Base::Base64Pad => {
                proof {
                    reveal_strlit("M");
                    assert("M"@ =~= seq!['M']);
                }
                "M"
            },
            Base::Base64Url => {
                proof {
                    reveal_strlit("u");
                    assert("u"@ =~= seq!['u']);
                }
                "u"
            },
            Base::Base64UrlPad => {
                proof {
                    reveal_strlit("U");
                    assert("U"@ =~= seq!['U']);
                }
                "U"
            },
            Base::Base256Emoji => {
                proof {
                    reveal_strlit("\u{1F680}");
                    assert("\u{1F680}"@ =~= seq!['\u{1F680}']);
                }
                "\u{1F680}"
            },
        }
    }
}

/// Sigils identify bases uniquely: looking a base's own sigil back up in the
/// registry returns that base.
pub proof fn lemma_code_bijective(b: Base)
    ensures
        Base::from_code_spec(b.code_spec()) == Some(b),
{
}

/// A sigil that the registry knows belongs to exactly the base it maps to.
pub proof fn lemma_code_of_from_code(c: char)
    ensures
        match Base::from_code_spec(c) {
            Some(b) => b.code_spec() == c,
            None => true,
        },
{
}

/// Walking the detection order advances the position by one step at a time.
pub proof fn lemma_next_index(b: Base)
    ensures
        match b.next_spec() {
            Some(nb) => nb.index_spec() == b.index_spec() + 1,
            None => b.index_spec() == 23,
        },
{
}

/// The name of a base, as a string.
pub open spec fn base_name_spec(b: Base) -> Seq<char> {
    match b {
        Base::Identity => "Identity"@,
        Base::Base2 => "Base2"@,
        Base::Base8 => "Base8"@,
        Base::Base10 => "Base10"@,
        Base::Base16Lower => "Base16Lower"@,
        Base::Base16Upper => "Base16Upper"@,
        Base::Base32Lower => "Base32Lower"@,
        Base::Base32Upper => "Base32Upper"@,
        Base::Base32PadLower => "Base32PadLower"@,
        Base::Base32PadUpper => "Base32PadUpper"@,
        Base::Base32HexLower => "Base32HexLower"@,
        Base::Base32HexUpper => "Base32HexUpper"@,
        Base::Base32HexPadLower => "Base32HexPadLower"@,
        Base::Base32HexPadUpper => "Base32HexPadUpper"@,
        Base::Base32Z => "Base32Z"@,
        Base::Base36Lower => "Base36Lower"@,
        Base::Base36Upper => "Base36Upper"@,
        Base::Base58Flickr => "Base58Flickr"@,
        Base::Base58Btc => "Base58Btc"@,
        Base::Base64 => "Base64"@,
        Base::Base64Pad => "Base64Pad"@,
        Base::Base64Url => "Base64Url"@,
        Base::Base64UrlPad => "Base64UrlPad"@,
        Base::Base256Emoji => "Base256Emoji"@,
    }
}

/// Convert a base to its string name.
pub fn base_name(b: Base) -> (r: String)
    ensures
        r@ == base_name_spec(b),
{
    let s: &str = match b {
        Base::Identity => "Identity",
        Base::Base2 => "Base2",
        Base::Base8 => "Base8",
        Base::Base10 => "Base10",
        Base::Base16Lower => "Base16Lower",
        Base::Base16Upper => "Base16Upper",
        Base::Base32Lower => "Base32Lower",
        Base::Base32Upper => "Base32Upper",
        Base::Base32PadLower => "Base32PadLower",
        Base::Base32PadUpper => "Base32PadUpper",
        Base::Base32HexLower => "Base32HexLower",
        Base::Base32HexUpper => "Base32HexUpper",
        Base::Base32HexPadLower => "Base32HexPadLower",
        Base::Base32HexPadUpper => "Base32HexPadUpper",
        Base::Base32Z => "Base32Z",
        Base::Base36Lower => "Base36Lower",
        Base::Base36Upper => "Base36Upper",
        Base::Base58Flickr => "Base58Flickr",
        Base::Base58Btc => "Base58Btc",
        Base::Base64 => "Base64",
        Base::Base64Pad => "Base64Pad",
        Base::Base64Url => "Base64Url",
        Base::Base64UrlPad => "Base64UrlPad",
        Base::Base256Emoji => "Base256Emoji",
    };
    String::from_str(s)
}

/// Iterator over the `Base` variants, in the fixed detection order. Holds
/// the most recently yielded base; `None` means nothing was yielded yet.
pub struct BaseIter(Option<Base>);

impl BaseIter {
    /// The most recently yielded base, or `None` if nothing was yielded yet.
    pub closed spec fn current(self) -> Option<Base> {
        self.0
    }

    /// Create an iterator that starts at the first base in the order.
    pub fn new() -> (r: Self)
        ensures
            r.current() is None,
    {
        BaseIter(None)
    }

    /// Yield the next base in the fixed detection order, or `None` after
    /// the last one.
    pub fn next(&mut self) -> (r: Option<Base>)
        ensures
            match old(self).current() {
                None => r == Some(Base::Identity) && final(self).current() == Some(Base::Identity),
                Some(b) => match b.next_spec() {
                    Some(nb) => r == Some(nb) && final(self).current() == Some(nb),
                    None => r is None && final(self).current() == Some(b),
                },
            },
    {
        let result = match self.0 {
            None => Base::Identity,
            Some(b) => match b.next_in_order() {
                Some(nb) => nb,
                None => {
                    return None;
                },
            },
        };
        self.0 = Some(result);
        Some(result)
    }
}

impl Base {
    /// The base that follows this one in the fixed detection order, or
    /// `None` for the last one.
    fn next_in_order(&self) -> (r: Option<Base>)
        ensures
            r == self.next_spec(),
    {
        match self {
            Base::Identity => Some(Base::Base2),
            Base::Base2 => Some(Base::Base8),
            Base::Base8 => Some(Base::Base10),
            Base::Base10 => Some(Base::Base16Lower),
            Base::Base16Lower => Some(Base::Base16Upper),
            Base::Base16Upper => Some(Base::Base32Lower),
            Base::Base32Lower => Some(Base::Base32Upper),
            Base::Base32Upper => Some(Base::Base32PadLower),
            Base::Base32PadLower => Some(Base::Base32PadUpper),
            Base::Base32PadUpper => Some(Base::Base32HexLower),
            Base::Base32HexLower => Some(Base::Base32HexUpper),
            Base::Base32HexUpper => Some(Base::Base32HexPadLower),
            Base::Base32HexPadLower => Some(Base::Base32HexPadUpper),
            Base::Base32HexPadUpper => Some(Base::Base32Z),
            Base::Base32Z => Some(Base::Base36Lower),
            Base::Base36Lower => Some(Base::Base36Upper),
            Base::Base36Upper => Some(Base::Base58Flickr),
            Base::Base58Flickr => Some(Base::Base58Btc),
            Base::Base58Btc => Some(Base::Base64),
            Base::Base64 => Some(Base::Base64Pad),
            Base::Base64Pad => Some(Base::Base64Url),
            Base::Base64Url => Some(Base::Base64UrlPad),
            Base::Base64UrlPad => Some(Base::Base256Emoji),
            Base::Base256Emoji => None,
        }
    }
}

impl Default for BaseIter {
    /// An iterator that starts at the first base in the order.
    fn default() -> (r: Self)
        ensures
            r.current() is None,
    {
        BaseIter::new()
    }
}

impl From<Base> for BaseIter {
    /// An iterator positioned on `b`: iteration resumes after `b`.
    fn from(b: Base) -> (r: Self)
        ensures
            r.current() == Some(b),
    {
        BaseIter(Some(b))
    }
}

impl vstd::std_specs::convert::FromSpecImpl<Base> for BaseIter {
    closed spec fn obeys_from_spec() -> bool {
        true
    }

    closed spec fn from_spec(b: Base) -> BaseIter {
        BaseIter(Some(b))
    }
}

} // verus!
