//! Ordered sets of text keys, ordered as `String` orders them: by their UTF-8
//! bytes, lexicographically.

use crate::codec::{bytes_le, lemma_lex_le_antisym, lemma_lex_le_total, lemma_lex_le_trans, lex_le, lex_lt};
use crate::replay::bytes_equal;
use vstd::prelude::*;

verus! {

/// The UTF-8 bytes of text.
pub open spec fn utf8(text: Seq<char>) -> Seq<u8> {
    vstd::utf8::encode_utf8(text)
}

/// The keys strictly increase.
pub open spec fn keys_sorted(keys: Seq<String>) -> bool {
    forall|i: int, j: int| 0 <= i < j < keys.len() ==> lex_lt(utf8(keys[i]@), utf8(keys[j]@))
}

/// The texts of the keys.
pub open spec fn key_texts(keys: Seq<String>) -> Set<Seq<char>> {
    Set::new(|k: Seq<char>| exists|i: int| 0 <= i < keys.len() && keys[i]@ == k)
}

proof fn lemma_lt_trans(a: Seq<u8>, b: Seq<u8>, c: Seq<u8>)
    requires
        lex_lt(a, b),
        lex_le(b, c),
    ensures
        lex_lt(a, c),
{
    lemma_lex_le_trans(a, b, c);
    if a == c {
        lemma_lex_le_antisym(a, b);
    }
}

/// Insert `key` into the ordered set, keeping it ordered and free of repeats.
pub fn insert_key(keys: &mut Vec<String>, key: String)
    requires
        keys_sorted(old(keys)@),
    ensures
        keys_sorted(final(keys)@),
        key_texts(final(keys)@) == key_texts(old(keys)@).insert(key@),
{
    let ghost before = keys@;
    let mut at: usize = 0;
    while at < keys.len() && !bytes_le(key.as_str().as_bytes(), keys[at].as_str().as_bytes())
        invariant
            at <= keys@.len(),
            keys@ == before,
            keys_sorted(keys@),
            forall|i: int| 0 <= i < at ==> lex_lt(utf8(#[trigger] keys@[i]@), utf8(key@)),
        decreases keys@.len() - at,
    {
        proof {
            lemma_lex_le_total(utf8(key@), utf8(keys@[at as int]@));
            if utf8(keys@[at as int]@) == utf8(key@) {
                assert(lex_le(utf8(key@), utf8(keys@[at as int]@)));
            }
        }
        at = at + 1;
    }
    if at < keys.len() && bytes_equal(key.as_str().as_bytes(), keys[at].as_str().as_bytes()) {
        proof {
            vstd::utf8::encode_utf8_decode_utf8(key@);
            vstd::utf8::encode_utf8_decode_utf8(keys@[at as int]@);
            assert(key_texts(keys@) =~= key_texts(before).insert(key@));
        }
        return;
    }
    let ghost text = key@;
    keys.insert(at, key);
    proof {
        let now = keys@;
        if at < before.len() {
            assert(utf8(text) != utf8(before[at as int]@));
        }
        assert forall|i: int, j: int| 0 <= i < j < now.len() implies lex_lt(utf8(now[i]@), utf8(now[j]@)) by {
            if j < at {
                assert(now[i] == before[i] && now[j] == before[j]);
            } else if j == at {
                assert(now[i] == before[i]);
            } else if i == at {
                assert(now[j] == before[j - 1]);
                assert(lex_le(utf8(text), utf8(before[at as int]@)));
                if j - 1 > at {
                    assert(lex_lt(utf8(before[at as int]@), utf8(before[j - 1]@)));
                }
                assert(lex_le(utf8(text), utf8(before[j - 1]@))) by {
                    if j - 1 > at {
                        lemma_lex_le_trans(utf8(text), utf8(before[at as int]@), utf8(before[j - 1]@));
                    }
                }
                if utf8(text) == utf8(before[j - 1]@) {
                    if j - 1 > at {
                        lemma_lex_le_antisym(utf8(before[at as int]@), utf8(text));
                    }
                }
            } else if i < at {
                assert(now[i] == before[i] && now[j] == before[j - 1]);
                assert(lex_lt(utf8(before[i]@), utf8(text)));
                assert(lex_le(utf8(text), utf8(before[at as int]@)));
                lemma_lt_trans(utf8(before[i]@), utf8(text), utf8(before[at as int]@));
                if j - 1 > at {
                    assert(lex_lt(utf8(before[at as int]@), utf8(before[j - 1]@)));
                    lemma_lt_trans(utf8(before[i]@), utf8(before[at as int]@), utf8(before[j - 1]@));
                }
            } else {
                assert(now[i] == before[i - 1] && now[j] == before[j - 1]);
            }
        }
        assert forall|k: Seq<char>| key_texts(now).contains(k) <==> key_texts(before).insert(text).contains(k) by {
            if key_texts(now).contains(k) {
                let i = choose|i: int| 0 <= i < now.len() && now[i]@ == k;
                if i < at {
                    assert(now[i] == before[i]);
                } else if i > at {
                    assert(now[i] == before[i - 1]);
                }
            }
            if key_texts(before).contains(k) {
                let i = choose|i: int| 0 <= i < before.len() && before[i]@ == k;
                if i < at {
                    assert(now[i] == before[i]);
                } else {
                    assert(now[i + 1] == before[i]);
                }
            }
            if k == text {
                assert(now[at as int]@ == text);
            }
        }
        assert(key_texts(now) =~= key_texts(before).insert(text));
    }
}

} // verus!
