//! Host-backed functions of the standard library, identified independently of their surface names.
//!
//! A declaration `native(@std.core.print) fun print(x: String);` binds a library function to a
//! host implementation. The surface id is lowered to a closed [`NativeKey`], so dispatch never
//! depends on the spelling, and every key has exactly one id.
use vstd::prelude::*;
use crate::text::{same_text, texts};

verus! {

/// A host-backed standard-library function, identified independently of its
/// surface name.
#[derive(Debug, Clone, Copy, PartialEq, Eq, Hash, Structural)]
pub enum NativeKey {
    /// `std::core::print` — write a value's Display form to stdout, no newline.
    StdCorePrint,
    /// `std::core::println` — write a value's Display form to stdout with newline.
    StdCorePrintln,
    /// `std::core::dbg` — debug-print a value to stderr and return it unchanged.
    StdCoreDbg,
    /// `std::core::assert` — panic if the condition is false.
    StdCoreAssert,
    /// `std::core::assert_msg` — panic with a message if the condition is false.
    StdCoreAssertMsg,
    /// `std::core::clock` — milliseconds since the Unix epoch.
    StdCoreClock,
    /// `std::core::string_len` — number of characters in a string.
    StdCoreStringLen,
    /// `std::core::string_concat` — concatenate two strings.
    StdCoreStringConcat,
    /// `Display::to_string` for every displayable primitive — the host formats
    /// the receiver by its runtime value, so one key serves all 13 impls.
    StdCoreToString,
    /// `i8::from(numeric)` — convert any numeric value to i8.
    StdCoreI8From,
    /// `i16::from(numeric)` — convert any numeric value to i16.
    StdCoreI16From,
    /// `i32::from(numeric)` — convert any numeric value to i32.
    StdCoreI32From,
    /// `i64::from(numeric)` — convert any numeric value to i64.
    StdCoreI64From,
    /// `u8::from(numeric)` — convert any numeric value to u8.
    StdCoreU8From,
    /// `u16::from(numeric)` — convert any numeric value to u16.
    StdCoreU16From,
    /// `u32::from(numeric | Char)` — convert a numeric value or a Char code
    /// point to u32.
    StdCoreU32From,
    /// `u64::from(numeric)` — convert any numeric value to u64.
    StdCoreU64From,
    /// `f32::from(numeric)` — convert any numeric value to f32.
    StdCoreF32From,
    /// `f64::from(numeric)` — convert any numeric value to f64.
    StdCoreF64From,
    /// `Char::from(u32)` — code point to Char; panics on invalid scalars.
    StdCoreCharFrom,
    /// `List::new()` — empty list.
    StdCoreListNew,
    /// `List::from(T[])` — list with a copy of the array's elements.
    StdCoreListFrom,
    /// `List::push(&mut self, T)` — append an element.
    StdCoreListPush,
    /// `List::pop(&mut self) -> Perhaps<T>` — remove and return the last element.
    StdCoreListPop,
    /// `List::len(self) -> i64` — number of elements.
    StdCoreListLen,
    /// `List::get(self, i64) -> Perhaps<T>` — element at an index.
    StdCoreListGet,
    /// `List::as_slice(self) -> T[]` — the backing array.
    StdCoreListAsSlice,
}

/// The last segment of a key's surface id.
pub open spec fn leaf(key: NativeKey) -> Seq<char> {
    match key {
        NativeKey::StdCorePrint => "print"@,
        NativeKey::StdCorePrintln => "println"@,
        NativeKey::StdCoreDbg => "dbg"@,
        NativeKey::StdCoreAssert => "assert"@,
        NativeKey::StdCoreAssertMsg => "assert_msg"@,
        NativeKey::StdCoreClock => "clock"@,
        NativeKey::StdCoreStringLen => "string_len"@,
        NativeKey::StdCoreStringConcat => "string_concat"@,
        NativeKey::StdCoreToString => "to_string"@,
        NativeKey::StdCoreI8From => "i8_from"@,
        NativeKey::StdCoreI16From => "i16_from"@,
        NativeKey::StdCoreI32From => "i32_from"@,
        NativeKey::StdCoreI64From => "i64_from"@,
        NativeKey::StdCoreU8From => "u8_from"@,
        NativeKey::StdCoreU16From => "u16_from"@,
        NativeKey::StdCoreU32From => "u32_from"@,
        NativeKey::StdCoreU64From => "u64_from"@,
        NativeKey::StdCoreF32From => "f32_from"@,
        NativeKey::StdCoreF64From => "f64_from"@,
        NativeKey::StdCoreCharFrom => "char_from"@,
        NativeKey::StdCoreListNew => "list_new"@,
        NativeKey::StdCoreListFrom => "list_from"@,
        NativeKey::StdCoreListPush => "list_push"@,
        NativeKey::StdCoreListPop => "list_pop"@,
        NativeKey::StdCoreListLen => "list_len"@,
        NativeKey::StdCoreListGet => "list_get"@,
        NativeKey::StdCoreListAsSlice => "list_as_slice"@,
    }
}

/// The segments of a key's surface id.
pub open spec fn key_path(key: NativeKey) -> Seq<Seq<char>> {
    seq!["std"@, "core"@, leaf(key)]
}

/// The surface id of a key.
pub open spec fn surface(key: NativeKey) -> Seq<char> {
    "@std.core."@ + leaf(key)
}

/// The parts of a text between separators, where `part` of the first one is known already.
pub open spec fn split_on(s: Seq<char>, sep: char, part: Seq<char>) -> Seq<Seq<char>>
    decreases s.len(),
{
    if s.len() == 0 {
        seq![part]
    } else if s[0] == sep {
        seq![part] + split_on(s.skip(1), sep, Seq::empty())
    } else {
        split_on(s.skip(1), sep, part.push(s[0]))
    }
}

/// The parts of a text between separators.
pub open spec fn split(s: Seq<char>, sep: char) -> Seq<Seq<char>> {
    split_on(s, sep, Seq::empty())
}

impl NativeKey {
    /// Lower a dotted surface id (`["std","core","print"]`) to a [`NativeKey`].
    /// Returns `None` for an unknown id, so that the closed enum stays the single source of
    /// truth for host bindings.
    pub fn from_path(path: &[String]) -> (r: Option<NativeKey>)
        ensures
            match r {
                Some(key) => texts(path@) == key_path(key),
                None => forall|key: NativeKey| texts(path@) != #[trigger] key_path(key),
            },
    {
        if path.len() != 3 || !same_text(path[0].as_str(), "std") || !same_text(path[1].as_str(), "core") {
            assert forall|key: NativeKey| texts(path@) != #[trigger] key_path(key) by {
                assert(key_path(key).len() == 3 && key_path(key)[0] == "std"@ && key_path(key)[1] == "core"@);
                assert(texts(path@).len() == path@.len());
                if path@.len() == 3 {
                    assert(texts(path@)[0] == path@[0]@ && texts(path@)[1] == path@[1]@);
                }
            }
            return None;
        }
        let last: &str = path[2].as_str();
        let key: NativeKey = if same_text(last, "print") {
            NativeKey::StdCorePrint
        } else if same_text(last, "println") {
            NativeKey::StdCorePrintln
        } else if same_text(last, "dbg") {
            NativeKey::StdCoreDbg
        } else if same_text(last, "assert") {
            NativeKey::StdCoreAssert
        } else if same_text(last, "assert_msg") {
            NativeKey::StdCoreAssertMsg
        } else if same_text(last, "clock") {
            NativeKey::StdCoreClock
        } else if same_text(last, "string_len") {
            NativeKey::StdCoreStringLen
        } else if same_text(last, "string_concat") {
            NativeKey::StdCoreStringConcat
        } else if same_text(last, "to_string") {
            NativeKey::StdCoreToString
        } else if same_text(last, "i8_from") {
            NativeKey::StdCoreI8From
        } else if same_text(last, "i16_from") {
            NativeKey::StdCoreI16From
        } else if same_text(last, "i32_from") {
            NativeKey::StdCoreI32From
        } else if same_text(last, "i64_from") {
            NativeKey::StdCoreI64From
        } else if same_text(last, "u8_from") {
            NativeKey::StdCoreU8From
        } else if same_text(last, "u16_from") {
            NativeKey::StdCoreU16From
        } else if same_text(last, "u32_from") {
            NativeKey::StdCoreU32From
        } else if same_text(last, "u64_from") {
            NativeKey::StdCoreU64From
        } else if same_text(last, "f32_from") {
            NativeKey::StdCoreF32From
        } else if same_text(last, "f64_from") {
            NativeKey::StdCoreF64From
        } else if same_text(last, "char_from") {
            NativeKey::StdCoreCharFrom
        } else if same_text(last, "list_new") {
            NativeKey::StdCoreListNew
        } else if same_text(last, "list_from") {
            NativeKey::StdCoreListFrom
        } else if same_text(last, "list_push") {
            NativeKey::StdCoreListPush
        } else if same_text(last, "list_pop") {
            NativeKey::StdCoreListPop
        } else if same_text(last, "list_len") {
            NativeKey::StdCoreListLen
        } else if same_text(last, "list_get") {
            NativeKey::StdCoreListGet
        } else if same_text(last, "list_as_slice") {
            NativeKey::StdCoreListAsSlice
        } else {
            assert forall|key: NativeKey| texts(path@) != #[trigger] key_path(key) by {
                assert(key_path(key)[2] == leaf(key));
                assert(texts(path@)[2] == path@[2]@);
            }
            return None;
        };
        assert(texts(path@) =~= key_path(key));
        Some(key)
    }

    /// The surface id this key lowers from, for diagnostics.
    pub fn surface_id(&self) -> (r: &'static str)
        ensures
            r@ == surface(*self),
    {
        proof {
            reveal_strlit("@std.core.");
        }
        match self {
            NativeKey::StdCorePrint => {
                proof {
                    reveal_strlit("@std.core.print");
                    reveal_strlit("print");
                    assert("@std.core.print"@ =~= "@std.core."@ + "print"@);
                }
                "@std.core.print"
            },
            NativeKey::StdCorePrintln => {
                proof {
                    reveal_strlit("@std.core.println");
                    reveal_strlit("println");
                    assert("@std.core.println"@ =~= "@std.core."@ + "println"@);
                }
                "@std.core.println"
            },
            NativeKey::StdCoreDbg => {
                proof {
                    reveal_strlit("@std.core.dbg");
                    reveal_strlit("dbg");
                    assert("@std.core.dbg"@ =~= "@std.core."@ + "dbg"@);
                }
                "@std.core.dbg"
            },
            NativeKey::StdCoreAssert => {
                proof {
                    reveal_strlit("@std.core.assert");
                    reveal_strlit("assert");
                    assert("@std.core.assert"@ =~= "@std.core."@ + "assert"@);
                }
                "@std.core.assert"
            },
            NativeKey::StdCoreAssertMsg => {
                proof {
                    reveal_strlit("@std.core.assert_msg");
                    reveal_strlit("assert_msg");
                    assert("@std.core.assert_msg"@ =~= "@std.core."@ + "assert_msg"@);
                }
                "@std.core.assert_msg"
            },
            NativeKey::StdCoreClock => {
                proof {
                    reveal_strlit("@std.core.clock");
                    reveal_strlit("clock");
                    assert("@std.core.clock"@ =~= "@std.core."@ + "clock"@);
                }
                "@std.core.clock"
            },
            NativeKey::StdCoreStringLen => {
                proof {
                    reveal_strlit("@std.core.string_len");
                    reveal_strlit("string_len");
                    assert("@std.core.string_len"@ =~= "@std.core."@ + "string_len"@);
                }
                "@std.core.string_len"
            },
            NativeKey::StdCoreStringConcat => {
                proof {
                    reveal_strlit("@std.core.string_concat");
                    reveal_strlit("string_concat");
                    assert("@std.core.string_concat"@ =~= "@std.core."@ + "string_concat"@);
                }
                "@std.core.string_concat"
            },
            NativeKey::StdCoreToString => {
                proof {
                    reveal_strlit("@std.core.to_string");
                    reveal_strlit("to_string");
                    assert("@std.core.to_string"@ =~= "@std.core."@ + "to_string"@);
                }
                "@std.core.to_string"
            },
            NativeKey::StdCoreI8From => {
                proof {
                    reveal_strlit("@std.core.i8_from");
                    reveal_strlit("i8_from");
                    assert("@std.core.i8_from"@ =~= "@std.core."@ + "i8_from"@);
                }
                "@std.core.i8_from"
            },
            NativeKey::StdCoreI16From => {
                proof {
                    reveal_strlit("@std.core.i16_from");
                    reveal_strlit("i16_from");
                    assert("@std.core.i16_from"@ =~= "@std.core."@ + "i16_from"@);
                }
                "@std.core.i16_from"
            },
            NativeKey::StdCoreI32From => {
                proof {
                    reveal_strlit("@std.core.i32_from");
                    reveal_strlit("i32_from");
                    assert("@std.core.i32_from"@ =~= "@std.core."@ + "i32_from"@);
                }
                "@std.core.i32_from"
            },
            NativeKey::StdCoreI64From => {
                proof {
                    reveal_strlit("@std.core.i64_from");
                    reveal_strlit("i64_from");
                    assert("@std.core.i64_from"@ =~= "@std.core."@ + "i64_from"@);
                }
                "@std.core.i64_from"
            },
            NativeKey::StdCoreU8From => {
                proof {
                    reveal_strlit("@std.core.u8_from");
                    reveal_strlit("u8_from");
                    assert("@std.core.u8_from"@ =~= "@std.core."@ + "u8_from"@);
                }
                "@std.core.u8_from"
            },
            NativeKey::StdCoreU16From => {
                proof {
                    reveal_strlit("@std.core.u16_from");
                    reveal_strlit("u16_from");
                    assert("@std.core.u16_from"@ =~= "@std.core."@ + "u16_from"@);
                }
                "@std.core.u16_from"
            },
            NativeKey::StdCoreU32From => {
                proof {
                    reveal_strlit("@std.core.u32_from");
                    reveal_strlit("u32_from");
                    assert("@std.core.u32_from"@ =~= "@std.core."@ + "u32_from"@);
                }
                "@std.core.u32_from"
            },
            NativeKey::StdCoreU64From => {
                proof {
                    reveal_strlit("@std.core.u64_from");
                    reveal_strlit("u64_from");
                    assert("@std.core.u64_from"@ =~= "@std.core."@ + "u64_from"@);
                }
                "@std.core.u64_from"
            },
            NativeKey::StdCoreF32From => {
                proof {
                    reveal_strlit("@std.core.f32_from");
                    reveal_strlit("f32_from");
                    assert("@std.core.f32_from"@ =~= "@std.core."@ + "f32_from"@);
                }
                "@std.core.f32_from"
            },
            NativeKey::StdCoreF64From => {
                proof {
                    reveal_strlit("@std.core.f64_from");
                    reveal_strlit("f64_from");
                    assert("@std.core.f64_from"@ =~= "@std.core."@ + "f64_from"@);
                }
                "@std.core.f64_from"
            },
            NativeKey::StdCoreCharFrom => {
                proof {
                    reveal_strlit("@std.core.char_from");
                    reveal_strlit("char_from");
                    assert("@std.core.char_from"@ =~= "@std.core."@ + "char_from"@);
                }
                "@std.core.char_from"
            },
            NativeKey::StdCoreListNew => {
                proof {
                    reveal_strlit("@std.core.list_new");
                    reveal_strlit("list_new");
                    assert("@std.core.list_new"@ =~= "@std.core."@ + "list_new"@);
                }
                "@std.core.list_new"
            },
            NativeKey::StdCoreListFrom => {
                proof {
                    reveal_strlit("@std.core.list_from");
                    reveal_strlit("list_from");
                    assert("@std.core.list_from"@ =~= "@std.core."@ + "list_from"@);
                }
                "@std.core.list_from"
            },
            NativeKey::StdCoreListPush => {
                proof {
                    reveal_strlit("@std.core.list_push");
                    reveal_strlit("list_push");
                    assert("@std.core.list_push"@ =~= "@std.core."@ + "list_push"@);
                }
                "@std.core.list_push"
            },
            NativeKey::StdCoreListPop => {
                proof {
                    reveal_strlit("@std.core.list_pop");
                    reveal_strlit("list_pop");
                    assert("@std.core.list_pop"@ =~= "@std.core."@ + "list_pop"@);
                }
                "@std.core.list_pop"
            },
            NativeKey::StdCoreListLen => {
                proof {
                    reveal_strlit("@std.core.list_len");
                    reveal_strlit("list_len");
                    assert("@std.core.list_len"@ =~= "@std.core."@ + "list_len"@);
                }
                "@std.core.list_len"
            },
            NativeKey::StdCoreListGet => {
                proof {
                    reveal_strlit("@std.core.list_get");
                    reveal_strlit("list_get");
                    assert("@std.core.list_get"@ =~= "@std.core."@ + "list_get"@);
                }
                "@std.core.list_get"
            },
            NativeKey::StdCoreListAsSlice => {
                proof {
                    reveal_strlit("@std.core.list_as_slice");
                    reveal_strlit("list_as_slice");
                    assert("@std.core.list_as_slice"@ =~= "@std.core."@ + "list_as_slice"@);
                }
                "@std.core.list_as_slice"
            },
        }
    }

    /// Every key, once.
    pub fn all() -> (r: Vec<NativeKey>)
        ensures
            forall|key: NativeKey| r@.contains(key),
            forall|i: int, j: int| 0 <= i < j < r@.len() ==> r@[i] != r@[j],
    {
        let keys: Vec<NativeKey> = vec![
            NativeKey::StdCorePrint,
            NativeKey::StdCorePrintln,
            NativeKey::StdCoreDbg,
            NativeKey::StdCoreAssert,
            NativeKey::StdCoreAssertMsg,
            NativeKey::StdCoreClock,
            NativeKey::StdCoreStringLen,
            NativeKey::StdCoreStringConcat,
            NativeKey::StdCoreToString,
            NativeKey::StdCoreI8From,
            NativeKey::StdCoreI16From,
            NativeKey::StdCoreI32From,
            NativeKey::StdCoreI64From,
            NativeKey::StdCoreU8From,
            NativeKey::StdCoreU16From,
            NativeKey::StdCoreU32From,
            NativeKey::StdCoreU64From,
            NativeKey::StdCoreF32From,
            NativeKey::StdCoreF64From,
            NativeKey::StdCoreCharFrom,
            NativeKey::StdCoreListNew,
            NativeKey::StdCoreListFrom,
            NativeKey::StdCoreListPush,
            NativeKey::StdCoreListPop,
            NativeKey::StdCoreListLen,
            NativeKey::StdCoreListGet,
            NativeKey::StdCoreListAsSlice,
        ];
        assert forall|key: NativeKey| keys@.contains(key) by {
            let i: int = match key {
                NativeKey::StdCorePrint => 0,
                NativeKey::StdCorePrintln => 1,
                NativeKey::StdCoreDbg => 2,
                NativeKey::StdCoreAssert => 3,
                NativeKey::StdCoreAssertMsg => 4,
                NativeKey::StdCoreClock => 5,
                NativeKey::StdCoreStringLen => 6,
                NativeKey::StdCoreStringConcat => 7,
                NativeKey::StdCoreToString => 8,
                NativeKey::StdCoreI8From => 9,
                NativeKey::StdCoreI16From => 10,
                NativeKey::StdCoreI32From => 11,
                NativeKey::StdCoreI64From => 12,
                NativeKey::StdCoreU8From => 13,
                NativeKey::StdCoreU16From => 14,
                NativeKey::StdCoreU32From => 15,
                NativeKey::StdCoreU64From => 16,
                NativeKey::StdCoreF32From => 17,
                NativeKey::StdCoreF64From => 18,
                NativeKey::StdCoreCharFrom => 19,
                NativeKey::StdCoreListNew => 20,
                NativeKey::StdCoreListFrom => 21,
                NativeKey::StdCoreListPush => 22,
                NativeKey::StdCoreListPop => 23,
                NativeKey::StdCoreListLen => 24,
                NativeKey::StdCoreListGet => 25,
                NativeKey::StdCoreListAsSlice => 26,
            };
            assert(keys@[i] == key);
        }
        keys
    }
}

/// No two keys are lowered from the same path.
pub proof fn law_key_paths_are_distinct(a: NativeKey, b: NativeKey)
    requires
        key_path(a) == key_path(b),
    ensures
        a == b,
{
    assert(key_path(a)[2] == leaf(a) && key_path(b)[2] == leaf(b));
    reveal_strlit("print");
    reveal_strlit("println");
    reveal_strlit("dbg");
    reveal_strlit("assert");
    reveal_strlit("assert_msg");
    reveal_strlit("clock");
    reveal_strlit("string_len");
    reveal_strlit("string_concat");
    reveal_strlit("to_string");
    reveal_strlit("i8_from");
    reveal_strlit("i16_from");
    reveal_strlit("i32_from");
    reveal_strlit("i64_from");
    reveal_strlit("u8_from");
    reveal_strlit("u16_from");
    reveal_strlit("u32_from");
    reveal_strlit("u64_from");
    reveal_strlit("f32_from");
    reveal_strlit("f64_from");
    reveal_strlit("char_from");
    reveal_strlit("list_new");
    reveal_strlit("list_from");
    reveal_strlit("list_push");
    reveal_strlit("list_pop");
    reveal_strlit("list_len");
    reveal_strlit("list_get");
    reveal_strlit("list_as_slice");
    let la = leaf(a);
    let lb = leaf(b);
    assert(la.len() == lb.len());
    assert(0 < la.len() ==> la[0] == lb[0]);
    assert(1 < la.len() ==> la[1] == lb[1]);
    assert(2 < la.len() ==> la[2] == lb[2]);
    assert(3 < la.len() ==> la[3] == lb[3]);
    assert(4 < la.len() ==> la[4] == lb[4]);
    assert(5 < la.len() ==> la[5] == lb[5]);
    assert(6 < la.len() ==> la[6] == lb[6]);
    assert(7 < la.len() ==> la[7] == lb[7]);
    assert(8 < la.len() ==> la[8] == lb[8]);
}

proof fn lemma_split_plain(a: Seq<char>, rest: Seq<char>, sep: char, part: Seq<char>)
    requires
        forall|i: int| 0 <= i < a.len() ==> #[trigger] a[i] != sep,
    ensures
        split_on(a + rest, sep, part) == split_on(rest, sep, part + a),
    decreases a.len(),
{
    if a.len() == 0 {
        assert(a + rest =~= rest);
        assert(part + a =~= part);
    } else {
        let b = a.skip(1);
        assert forall|i: int| 0 <= i < b.len() implies #[trigger] b[i] != sep by {
            assert(b[i] == a[i + 1]);
        }
        assert((a + rest).skip(1) =~= b + rest);
        assert((a + rest)[0] == a[0]);
        assert(part.push(a[0]) + b =~= part + a);
        lemma_split_plain(b, rest, sep, part.push(a[0]));
    }
}

proof fn lemma_split_apart(a: Seq<char>, rest: Seq<char>, sep: char)
    requires
        forall|i: int| 0 <= i < a.len() ==> #[trigger] a[i] != sep,
    ensures
        split(a, sep) == seq![a],
        split(a + seq![sep] + rest, sep) == seq![a] + split(rest, sep),
{
    let none = Seq::<char>::empty();
    lemma_split_plain(a, none, sep, none);
    assert(a + none =~= a);
    assert(none + a =~= a);
    lemma_split_plain(a, seq![sep] + rest, sep, none);
    assert(a + seq![sep] + rest =~= a + (seq![sep] + rest));
    assert((seq![sep] + rest).skip(1) =~= rest);
}

proof fn lemma_leaf_is_plain(key: NativeKey)
    ensures
        forall|i: int| 0 <= i < leaf(key).len() ==> #[trigger] leaf(key)[i] != '.',
{
    reveal_strlit("print");
    reveal_strlit("println");
    reveal_strlit("dbg");
    reveal_strlit("assert");
    reveal_strlit("assert_msg");
    reveal_strlit("clock");
    reveal_strlit("string_len");
    reveal_strlit("string_concat");
    reveal_strlit("to_string");
    reveal_strlit("i8_from");
    reveal_strlit("i16_from");
    reveal_strlit("i32_from");
    reveal_strlit("i64_from");
    reveal_strlit("u8_from");
    reveal_strlit("u16_from");
    reveal_strlit("u32_from");
    reveal_strlit("u64_from");
    reveal_strlit("f32_from");
    reveal_strlit("f64_from");
    reveal_strlit("char_from");
    reveal_strlit("list_new");
    reveal_strlit("list_from");
    reveal_strlit("list_push");
    reveal_strlit("list_pop");
    reveal_strlit("list_len");
    reveal_strlit("list_get");
    reveal_strlit("list_as_slice");
}

/// The id of a key, without its leading mark and split at its dots, is what the key is lowered
/// from.
pub proof fn law_surface_ids_round_trip(key: NativeKey)
    ensures
        surface(key)[0] == '@',
        split(surface(key).skip(1), '.') == key_path(key),
{
    reveal_strlit("@std.core.");
    reveal_strlit("std");
    reveal_strlit("core");
    lemma_leaf_is_plain(key);
    let inner = "core"@ + seq!['.'] + leaf(key);
    assert(surface(key).skip(1) =~= "std"@ + seq!['.'] + inner);
    lemma_split_apart("std"@, inner, '.');
    lemma_split_apart("core"@, leaf(key), '.');
    lemma_split_apart(leaf(key), Seq::empty(), '.');
    assert(key_path(key) =~= seq!["std"@] + (seq!["core"@] + seq![leaf(key)]));
}

/// No two keys have the same id.
pub proof fn law_surface_ids_are_distinct(a: NativeKey, b: NativeKey)
    requires
        surface(a) == surface(b),
    ensures
        a == b,
{
    law_surface_ids_round_trip(a);
    law_surface_ids_round_trip(b);
    law_key_paths_are_distinct(a, b);
}

} // verus!
