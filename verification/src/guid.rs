//! Globally unique identifiers, parsed from their canonical text.
//!
//! The canonical form is five groups of hexadecimal digits — eight, four,
//! four, four and twelve — separated by hyphens, either case.  The first
//! three groups are the identifier's numeric fields; the last two supply its
//! eight trailing bytes.

use crate::hex::all_hex;
use crate::hex::hex_seq_val;
use crate::hex::lemma_hex_seq_val_bound;
use crate::hex::parse_hex_range;
use crate::hex::pow16;
use vstd::prelude::*;
use vstd::string::StringSliceAdditionalSpecFns;

verus! {

/// The text is not a canonical identifier; it is handed back.
#[derive(Debug, Clone, PartialEq, Eq)]
pub struct InvalidUuidString {
    pub text: String,
}

/// A globally unique identifier.
#[derive(Debug, Copy, Clone, PartialEq, Eq)]
pub struct Guid {
    pub data1: u32,
    pub data2: u16,
    pub data3: u16,
    pub data4: [u8; 8],
}

/// The hyphen byte separating the groups.
pub const HYPHEN: u8 = 45;

/// The text is a canonical identifier: thirty-six bytes, hyphens after the
/// first, second, third and fourth groups, hexadecimal digits elsewhere.
pub open spec fn uuid_wellformed(s: Seq<u8>) -> bool {
    &&& s.len() == 36
    &&& s[8] == HYPHEN
    &&& s[13] == HYPHEN
    &&& s[18] == HYPHEN
    &&& s[23] == HYPHEN
    &&& all_hex(s.subrange(0, 8))
    &&& all_hex(s.subrange(9, 13))
    &&& all_hex(s.subrange(14, 18))
    &&& all_hex(s.subrange(19, 23))
    &&& all_hex(s.subrange(24, 36))
}

/// The byte at position `i` of the identifier's trailing eight: the fourth
/// group supplies the first two, the fifth group the rest.
pub open spec fn uuid_data4_byte(s: Seq<u8>, i: int) -> int
    recommends
        uuid_wellformed(s),
        0 <= i < 8,
{
    if i < 2 {
        hex_seq_val(s.subrange(19 + 2 * i, 21 + 2 * i))
    } else {
        hex_seq_val(s.subrange(24 + 2 * (i - 2), 26 + 2 * (i - 2)))
    }
}

impl Guid {
    /// Parse canonical identifier text: its fields exactly when the text is
    /// well formed, and the rejected text otherwise.
    pub fn new(text: &str) -> (r: Result<Guid, InvalidUuidString>)
        ensures
            ({
                let s = text.spec_bytes();
                match r {
                    Ok(g) => uuid_wellformed(s) && g.data1 == hex_seq_val(s.subrange(0, 8))
                        && g.data2 == hex_seq_val(s.subrange(9, 13)) && g.data3 == hex_seq_val(
                        s.subrange(14, 18),
                    ) && (forall|i: int| 0 <= i < 8 ==> g.data4@[i] == uuid_data4_byte(s, i)),
                    Err(e) => !uuid_wellformed(s) && e.text@ == text@,
                }
            }),
    {
        let bytes = text.as_bytes();
        if bytes.len() != 36 {
            return Err(InvalidUuidString { text: text.to_owned() });
        }
        if bytes[8] != HYPHEN || bytes[13] != HYPHEN || bytes[18] != HYPHEN || bytes[23] != HYPHEN {
            return Err(InvalidUuidString { text: text.to_owned() });
        }
        let g1 = parse_hex_range(bytes, 0, 8);
        let g2 = parse_hex_range(bytes, 9, 13);
        let g3 = parse_hex_range(bytes, 14, 18);
        let mut data4: [u8; 8] = [0; 8];
        let mut i: usize = 0;
        let mut bad = false;
        while i < 8
            invariant
                i <= 8,
                bytes@.len() == 36,
                !bad ==> forall|j: int|
                    0 <= j < i ==> all_hex(
                        #[trigger] bytes@.subrange(byte_pair_start(j), byte_pair_start(j) + 2),
                    ) && data4@[j] == hex_seq_val(
                        bytes@.subrange(byte_pair_start(j), byte_pair_start(j) + 2),
                    ),
                bad ==> exists|j: int|
                    0 <= j < 8 && !all_hex(
                        #[trigger] bytes@.subrange(byte_pair_start(j), byte_pair_start(j) + 2),
                    ),
            decreases 8 - i,
        {
            let start: usize = if i < 2 {
                19 + 2 * i
            } else {
                24 + 2 * (i - 2)
            };
            proof {
                assert(start == byte_pair_start(i as int));
            }
            match parse_hex_range(bytes, start, start + 2) {
                Some(v) => {
                    proof {
                        lemma_hex_seq_val_bound(
                            bytes@.subrange(start as int, start as int + 2),
                        );
                        reveal_with_fuel(pow16, 3);
                    }
                    data4[i] = v as u8;
                    proof {
                        assert(data4@[i as int] == hex_seq_val(
                            bytes@.subrange(byte_pair_start(i as int), byte_pair_start(i as int)
                                + 2),
                        ));
                    }
                },
                None => {
                    bad = true;
                },
            }
            i = i + 1;
        }
        match (g1, g2, g3, bad) {
            (Some(v1), Some(v2), Some(v3), false) => {
                proof {
                    lemma_hex_seq_val_bound(bytes@.subrange(0, 8));
                    lemma_hex_seq_val_bound(bytes@.subrange(9, 13));
                    lemma_hex_seq_val_bound(bytes@.subrange(14, 18));
                    reveal_with_fuel(pow16, 9);
                    lemma_uuid_groups(bytes@);
                    assert forall|k: int| 0 <= k < 8 implies data4@[k] == uuid_data4_byte(
                        bytes@,
                        k,
                    ) by {
                        assert(all_hex(
                            bytes@.subrange(byte_pair_start(k), byte_pair_start(k) + 2),
                        ) && data4@[k] == hex_seq_val(
                            bytes@.subrange(byte_pair_start(k), byte_pair_start(k) + 2),
                        ));
                    }
                }
                Ok(Guid { data1: v1 as u32, data2: v2 as u16, data3: v3 as u16, data4 })
            },
            _ => {
                proof {
                    lemma_uuid_groups(bytes@);
                }
                Err(InvalidUuidString { text: text.to_owned() })
            },
        }
    }
}

/// Where the two-digit group of trailing byte `j` starts.
pub open spec fn byte_pair_start(j: int) -> int {
    if j < 2 {
        19 + 2 * j
    } else {
        24 + 2 * (j - 2)
    }
}

/// The fourth and fifth groups are hexadecimal exactly when each trailing
/// byte's two-digit group is.
proof fn lemma_uuid_groups(s: Seq<u8>)
    requires
        s.len() == 36,
    ensures
        (all_hex(s.subrange(19, 23)) && all_hex(s.subrange(24, 36))) <==> (forall|j: int|
            0 <= j < 8 ==> all_hex(
                #[trigger] s.subrange(byte_pair_start(j), byte_pair_start(j) + 2),
            )),
{
    if all_hex(s.subrange(19, 23)) && all_hex(s.subrange(24, 36)) {
        assert forall|j: int| 0 <= j < 8 implies all_hex(
            #[trigger] s.subrange(byte_pair_start(j), byte_pair_start(j) + 2),
        ) by {
            let st = byte_pair_start(j);
            assert forall|k: int| 0 <= k < 2 implies crate::hex::is_hex_byte(
                #[trigger] s.subrange(st, st + 2)[k],
            ) by {
                if j < 2 {
                    assert(s.subrange(st, st + 2)[k] == s.subrange(19, 23)[st - 19 + k]);
                } else {
                    assert(s.subrange(st, st + 2)[k] == s.subrange(24, 36)[st - 24 + k]);
                }
            }
        }
    }
    if forall|j: int|
        0 <= j < 8 ==> all_hex(#[trigger] s.subrange(byte_pair_start(j), byte_pair_start(j) + 2)) {
        assert forall|k: int| 0 <= k < 4 implies crate::hex::is_hex_byte(
            #[trigger] s.subrange(19, 23)[k],
        ) by {
            let j = k / 2;
            assert(all_hex(s.subrange(byte_pair_start(j), byte_pair_start(j) + 2)));
            assert(s.subrange(19, 23)[k] == s.subrange(byte_pair_start(j), byte_pair_start(j) + 2)[k
                - 2 * j]);
        }
        assert forall|k: int| 0 <= k < 12 implies crate::hex::is_hex_byte(
            #[trigger] s.subrange(24, 36)[k],
        ) by {
            let j = 2 + k / 2;
            assert(all_hex(s.subrange(byte_pair_start(j), byte_pair_start(j) + 2)));
            assert(s.subrange(24, 36)[k] == s.subrange(byte_pair_start(j), byte_pair_start(j) + 2)[k
                - 2 * (j - 2)]);
        }
    }
}

} // verus!
