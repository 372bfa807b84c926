//! Input-capture configuration decisions and device identity.
//!
//! Reading environment variables is the caller's business; the decisions on
//! what was read live here.

use vstd::prelude::*;

use vstd::string::StringSliceAdditionalSpecFns;

verus! {

/// Which physical buttons a multi-finger tap maps to.
#[derive(Clone, Copy, Debug, PartialEq, Eq, Structural)]
pub enum TapButtonMap {
    LeftRightMiddle,
    LeftMiddleRight,
}

/// Tap-handling configuration applied to every input device.
#[derive(Clone, Copy, Debug, PartialEq, Eq, Structural)]
pub struct InputConfig {
    pub tap_to_click: bool,
    pub tap_drag: bool,
    pub tap_drag_lock: bool,
    pub tap_button_map: TapButtonMap,
}

/// ASCII whitespace, as trimmed from a configuration value.
pub open spec fn cfg_is_ws(b: u8) -> bool {
    b == 0x09 || b == 0x0a || b == 0x0b || b == 0x0c || b == 0x0d || b == 0x20
}

/// The lower-case form of an ASCII letter; other bytes are unchanged.
pub open spec fn cfg_to_lower(b: u8) -> u8 {
    if 0x41 <= b && b <= 0x5a {
        (b + 0x20) as u8
    } else {
        b
    }
}

/// A value trimmed of whitespace on both ends and lowered, as the boolean
/// settings are compared.
pub open spec fn cfg_canon(s: Seq<u8>) -> Seq<u8>
    decreases s.len(),
{
    if s.len() > 0 && cfg_is_ws(s[0]) {
        cfg_canon(s.drop_first())
    } else if s.len() > 0 && cfg_is_ws(s.last()) {
        cfg_canon(s.drop_last())
    } else {
        s.map_values(|b: u8| cfg_to_lower(b))
    }
}

/// The words that turn a boolean setting off.
pub open spec fn cfg_false_words() -> Set<Seq<u8>> {
    set![
        seq![0x30u8],
        seq![0x66u8, 0x61u8, 0x6cu8, 0x73u8, 0x65u8],
        seq![0x6fu8, 0x66u8, 0x66u8],
        seq![0x6eu8, 0x6fu8],
    ]
}

/// The value of a boolean setting: absent means the default; `0`, `false`,
/// `off` and `no` (any case, surrounding whitespace ignored) mean false;
/// anything else means true.
pub open spec fn spec_env_bool(value: Option<Seq<u8>>, default: bool) -> bool {
    match value {
        None => default,
        Some(v) => !cfg_false_words().contains(cfg_canon(v)),
    }
}

/// Compares the canonical form of `value` against a word.
fn canon_eq(value: &[u8], word: &Vec<u8>) -> (r: bool)
    ensures
        r == (cfg_canon(value@) == word@),
{
    let mut lo: usize = 0;
    let mut hi: usize = value.len();
    proof {
        assert(value@.subrange(0, value@.len() as int) =~= value@);
    }
    while lo < hi && (value[lo] == 0x09 || value[lo] == 0x0a || value[lo] == 0x0b || value[lo]
        == 0x0c || value[lo] == 0x0d || value[lo] == 0x20)
        invariant
            lo <= hi <= value@.len(),
            cfg_canon(value@) == cfg_canon(value@.subrange(lo as int, hi as int)),
        decreases hi - lo,
    {
        proof {
            let sub = value@.subrange(lo as int, hi as int);
            assert(sub[0] == value@[lo as int]);
            assert(sub.drop_first() =~= value@.subrange(lo + 1, hi as int));
        }
        lo = lo + 1;
    }
    while lo < hi && (value[hi - 1] == 0x09 || value[hi - 1] == 0x0a || value[hi - 1] == 0x0b
        || value[hi - 1] == 0x0c || value[hi - 1] == 0x0d || value[hi - 1] == 0x20)
        invariant
            lo <= hi <= value@.len(),
            cfg_canon(value@) == cfg_canon(value@.subrange(lo as int, hi as int)),
            lo < hi ==> !cfg_is_ws(value@[lo as int]),
        decreases hi,
    {
        proof {
            let sub = value@.subrange(lo as int, hi as int);
            assert(sub[0] == value@[lo as int]);
            assert(sub.last() == value@[hi - 1]);
            assert(sub.drop_last() =~= value@.subrange(lo as int, hi - 1));
        }
        hi = hi - 1;
    }
    let ghost core = value@.subrange(lo as int, hi as int);
    proof {
        if lo < hi {
            assert(core[0] == value@[lo as int]);
            assert(core.last() == value@[hi - 1]);
        }
        assert(cfg_canon(core) =~= core.map_values(|b: u8| cfg_to_lower(b)));
    }
    if hi - lo != word.len() {
        return false;
    }
    let mut i: usize = 0;
    while i < word.len()
        invariant
            i <= word@.len(),
            lo + word@.len() == hi <= value@.len(),
            core == value@.subrange(lo as int, hi as int),
            cfg_canon(value@) == core.map_values(|b: u8| cfg_to_lower(b)),
            forall|j: int| 0 <= j < i ==> cfg_to_lower(core[j]) == word@[j],
        decreases word@.len() - i,
    {
        let b = value[lo + i];
        let low = if 0x41 <= b && b <= 0x5a {
            b + 0x20
        } else {
            b
        };
        proof {
            assert(core[i as int] == value@[lo + i]);
        }
        if low != word[i] {
            proof {
                assert(core.map_values(|b2: u8| cfg_to_lower(b2))[i as int] != word@[i as int]);
            }
            return false;
        }
        i = i + 1;
    }
    proof {
        assert(cfg_canon(value@) =~= word@);
    }
    true
}

/// Decides a boolean setting from the raw value of its environment variable
/// (environment configuration): `0`, `false`, `off` and `no` turn it off,
/// any other present value turns it on, absence keeps the default.
pub fn env_bool(value: Option<&str>, default: bool) -> (r: bool)
    ensures
        r == spec_env_bool(
            match value {
                Some(v) => Some(v.spec_bytes()),
                None => None,
            },
            default,
        ),
{
    let v = match value {
        Some(v) => v,
        None => {
            return default;
        },
    };
    let bs = v.as_bytes();
    let zero: Vec<u8> = vec![0x30u8];
    let word_false: Vec<u8> = vec![0x66u8, 0x61u8, 0x6cu8, 0x73u8, 0x65u8];
    let off: Vec<u8> = vec![0x6fu8, 0x66u8, 0x66u8];
    let no: Vec<u8> = vec![0x6eu8, 0x6fu8];
    let is_false = canon_eq(bs, &zero) || canon_eq(bs, &word_false) || canon_eq(bs, &off)
        || canon_eq(bs, &no);
    proof {
        assert(zero@ =~= seq![0x30u8]);
        assert(word_false@ =~= seq![0x66u8, 0x61u8, 0x6cu8, 0x73u8, 0x65u8]);
        assert(off@ =~= seq![0x6fu8, 0x66u8, 0x66u8]);
        assert(no@ =~= seq![0x6eu8, 0x6fu8]);
        if is_false {
            assert(cfg_false_words().contains(cfg_canon(v.spec_bytes())));
        } else {
            assert(!cfg_false_words().contains(cfg_canon(v.spec_bytes())));
        }
    }
    !is_false
}

/// The word selecting the left-middle-right tap map.
pub open spec fn kw_lmr() -> Seq<u8> {
    seq![0x6cu8, 0x6du8, 0x72u8]
}

/// The tap button map named by a configuration value: `lmr` (any case,
/// surrounding whitespace ignored) selects left-middle-right; anything else,
/// absence included, keeps the default left-right-middle order.
pub open spec fn spec_tap_button_map(value: Option<Seq<u8>>) -> TapButtonMap {
    match value {
        None => TapButtonMap::LeftRightMiddle,
        Some(v) => if cfg_canon(v) == kw_lmr() {
            TapButtonMap::LeftMiddleRight
        } else {
            TapButtonMap::LeftRightMiddle
        },
    }
}

/// Decides the tap button map from the raw value of its environment
/// variable (environment configuration).
pub fn tap_button_map_from(value: Option<&str>) -> (r: TapButtonMap)
    ensures
        r == spec_tap_button_map(
            match value {
                Some(v) => Some(v.spec_bytes()),
                None => None,
            },
        ),
{
    let v = match value {
        Some(v) => v,
        None => {
            return TapButtonMap::LeftRightMiddle;
        },
    };
    let lmr: Vec<u8> = vec![0x6cu8, 0x6du8, 0x72u8];
    proof {
        assert(lmr@ =~= kw_lmr());
    }
    if canon_eq(v.as_bytes(), &lmr) {
        TapButtonMap::LeftMiddleRight
    } else {
        TapButtonMap::LeftRightMiddle
    }
}

/// The non-zero FNV-1a hash of a device's kernel name.
pub open spec fn fnv1a(s: Seq<u8>, i: int, acc: u32) -> u32
    decreases s.len() - i,
{
    if i < 0 || i >= s.len() {
        acc
    } else {
        fnv1a(s, i + 1, (((acc ^ (s[i] as u32)) as u64 * 16777619) % 0x100000000) as u32)
    }
}

/// A stable numeric identity for an input device, derived from its kernel
/// name by FNV-1a hashing; zero is avoided so the id is always meaningful.
pub fn device_id(sysname: &str) -> (r: u32)
    ensures
        r == (if fnv1a(sysname.spec_bytes(), 0, 2166136261u32) == 0 {
            1u32
        } else {
            fnv1a(sysname.spec_bytes(), 0, 2166136261u32)
        }),
{
    let bs = sysname.as_bytes();
    let mut hash: u32 = 2166136261;
    let mut i: usize = 0;
    while i < bs.len()
        invariant
            i <= bs@.len(),
            fnv1a(bs@, 0, 2166136261u32) == fnv1a(bs@, i as int, hash),
        decreases bs@.len() - i,
    {
        let x = hash ^ (bs[i] as u32);
        let wide: u64 = (x as u64) * 16777619;
        let next: u32 = (wide % 0x100000000) as u32;
        proof {
            assert(next == (((hash ^ (bs@[i as int] as u32)) as u64 * 16777619) % 0x100000000)
                as u32);
        }
        hash = next;
        i = i + 1;
    }
    if hash == 0 {
        1
    } else {
        hash
    }
}

} // verus!
