//! Spreadsheet column labels ("A", "W", "AA") and the zero-based index that
//! each one stands for.

use vstd::prelude::*;
use crate::text::chars_of;

verus! {

/// Why a label names no column.
#[derive(Debug, Clone, Copy, PartialEq, Eq, Structural)]
pub enum InvalidColumn {
    /// The label has no characters at all.
    Empty,
    /// The label has characters, but none of them is an ASCII letter.
    NoLetters,
    /// The label names a column beyond the last one that an index can hold.
    OutOfRange,
}

/// Whether `c` is one of the ASCII letters, in either case.
pub open spec fn is_letter(c: char) -> bool {
    ('a' as int <= c as int <= 'z' as int) || ('A' as int <= c as int <= 'Z' as int)
}

/// The place of a letter in the alphabet, from 1 for `A` or `a` to 26 for `Z` or `z`.
pub open spec fn letter_value(c: char) -> int {
    if 'a' as int <= c as int {
        c as int - 'a' as int + 1
    } else {
        c as int - 'A' as int + 1
    }
}

/// The ASCII letters of a label, in order; every other character is dropped.
pub open spec fn letters_of(label: Seq<char>) -> Seq<char> {
    label.filter(|c: char| is_letter(c))
}

/// A run of letters read as a number in base 26 whose digits run from 1 to 26.
pub open spec fn base26(letters: Seq<char>) -> int
    decreases letters.len(),
{
    if letters.len() == 0 {
        0
    } else {
        base26(letters.drop_last()) * 26 + letter_value(letters.last())
    }
}

/// The index that a label stands for, counted from 0 for column `A`.
///
/// Characters that are not ASCII letters are ignored, so `"A1"` reads as `"A"`.
pub open spec fn column_index(label: Seq<char>) -> Result<u32, InvalidColumn> {
    if label.len() == 0 {
        Err(InvalidColumn::Empty)
    } else if letters_of(label).len() == 0 {
        Err(InvalidColumn::NoLetters)
    } else if base26(letters_of(label)) > u32::MAX {
        Err(InvalidColumn::OutOfRange)
    } else {
        Ok((base26(letters_of(label)) - 1) as u32)
    }
}

/// Reading one more character of a label either adds its letter or changes nothing.
proof fn lemma_letters_step(label: Seq<char>, i: int)
    requires
        0 <= i < label.len(),
    ensures
        letters_of(label.take(i + 1)) == if is_letter(label[i]) {
            letters_of(label.take(i)).push(label[i])
        } else {
            letters_of(label.take(i))
        },
{
    reveal(Seq::filter);
    assert(label.take(i + 1).drop_last() =~= label.take(i));
}

/// The place of `c` in the alphabet if it is an ASCII letter.
fn letter_of(c: char) -> (value: Option<u64>)
    ensures
        value is Some <==> is_letter(c),
        value matches Some(v) ==> v == letter_value(c) && 1 <= v <= 26,
{
    let code: u32 = c as u32;
    if 'a' as u32 <= code && code <= 'z' as u32 {
        Some((code - 'a' as u32 + 1) as u64)
    } else if 'A' as u32 <= code && code <= 'Z' as u32 {
        Some((code - 'A' as u32 + 1) as u64)
    } else {
        None
    }
}

/// The zero-based index of the column that `label` names.
pub fn resolve(label: &str) -> (index: Result<u32, InvalidColumn>)
    ensures
        index == column_index(label@),
{
    let chars = chars_of(label);
    if chars.len() == 0 {
        return Err(InvalidColumn::Empty);
    }
    let mut acc: u64 = 0;
    let mut seen: bool = false;
    let mut beyond: bool = false;
    let mut i: usize = 0;
    proof {
        reveal(Seq::filter);
        assert(chars@.take(0) =~= Seq::<char>::empty());
    }
    while i < chars.len()
        invariant
            i <= chars.len(),
            seen == (letters_of(chars@.take(i as int)).len() > 0),
            beyond ==> base26(letters_of(chars@.take(i as int))) > u32::MAX,
            !beyond ==> acc == base26(letters_of(chars@.take(i as int))),
            acc <= u32::MAX,
            0 <= base26(letters_of(chars@.take(i as int))),
        decreases chars.len() - i,
    {
        proof {
            lemma_letters_step(chars@, i as int);
            let grown = letters_of(chars@.take(i as int)).push(chars@[i as int]);
            assert(grown.drop_last() =~= letters_of(chars@.take(i as int)));
        }
        match letter_of(chars[i]) {
            Some(v) => {
                seen = true;
                if !beyond {
                    let next: u64 = acc * 26 + v;
                    if next > 0xffff_ffff {
                        beyond = true;
                    } else {
                        acc = next;
                    }
                }
            },
            None => {},
        }
        i += 1;
    }
    proof {
        assert(chars@.take(i as int) =~= chars@);
    }
    if !seen {
        Err(InvalidColumn::NoLetters)
    } else if beyond {
        Err(InvalidColumn::OutOfRange)
    } else {
        proof {
            lemma_base26_positive(letters_of(chars@));
        }
        Ok((acc - 1) as u32)
    }
}

/// A run with at least one letter stands for a number of at least 1.
proof fn lemma_base26_positive(letters: Seq<char>)
    requires
        letters.len() > 0,
        forall|i: int| 0 <= i < letters.len() ==> is_letter(#[trigger] letters[i]),
    ensures
        base26(letters) >= 1,
    decreases letters.len(),
{
    if letters.len() > 1 {
        lemma_base26_positive(letters.drop_last());
    } else {
        assert(base26(letters.drop_last()) == 0);
    }
}

/// A label made of ASCII letters alone stands for the number that its
/// letters write in base 26, less one.
pub proof fn lemma_index_of_letters(label: Seq<char>)
    requires
        label.len() > 0,
        forall|i: int| 0 <= i < label.len() ==> is_letter(#[trigger] label[i]),
    ensures
        letters_of(label) == label,
        base26(label) >= 1,
        column_index(label) == if base26(label) > u32::MAX {
            Err::<u32, InvalidColumn>(InvalidColumn::OutOfRange)
        } else {
            Ok::<u32, InvalidColumn>((base26(label) - 1) as u32)
        },
{
    lemma_letters_kept(label);
    lemma_base26_positive(label);
}

/// Filtering keeps a label whose characters are all letters as it is.
proof fn lemma_letters_kept(label: Seq<char>)
    requires
        forall|i: int| 0 <= i < label.len() ==> is_letter(#[trigger] label[i]),
    ensures
        letters_of(label) == label,
    decreases label.len(),
{
    reveal(Seq::filter);
    if label.len() > 0 {
        lemma_letters_kept(label.drop_last());
        assert(label.drop_last().push(label.last()) =~= label);
    }
}

/// The characters of a label that are no letters do not count: a label that
/// is not empty stands for the same column as its letters alone, where it has any.
pub proof fn lemma_other_characters_ignored(label: Seq<char>)
    requires
        letters_of(label).len() > 0,
    ensures
        column_index(label) == column_index(letters_of(label)),
{
    let letters = letters_of(label);
    label.lemma_filter_len(|c: char| is_letter(c));
    assert forall|i: int| 0 <= i < letters.len() implies is_letter(#[trigger] letters[i]) by {
        label.lemma_filter_pred(|c: char| is_letter(c), i);
    }
    lemma_letters_kept(letters);
}

/// A letter stands for the same column in upper and in lower case.
pub proof fn lemma_case_ignored(a: Seq<char>, b: Seq<char>)
    requires
        a.len() == b.len(),
        forall|i: int| 0 <= i < a.len() ==> is_letter(#[trigger] a[i]) && is_letter(b[i]),
        forall|i: int| 0 <= i < a.len() ==> letter_value(#[trigger] a[i]) == letter_value(b[i]),
    ensures
        column_index(a) == column_index(b),
{
    lemma_letters_kept(a);
    lemma_letters_kept(b);
    lemma_same_values(a, b);
}

/// Two runs of letters with the same places in the alphabet write the same number.
proof fn lemma_same_values(a: Seq<char>, b: Seq<char>)
    requires
        a.len() == b.len(),
        forall|i: int| 0 <= i < a.len() ==> letter_value(#[trigger] a[i]) == letter_value(b[i]),
    ensures
        base26(a) == base26(b),
    decreases a.len(),
{
    if a.len() > 0 {
        lemma_same_values(a.drop_last(), b.drop_last());
    }
}

/// What can be read as a column label.
pub trait Column {
    /// The characters of the label.
    spec fn label(&self) -> Seq<char>;

    /// The zero-based index of the column that this label names.
    fn try_into_index(&self) -> (index: Result<u32, InvalidColumn>)
        ensures
            index == column_index(self.label()),
    ;
}

impl Column for &str {
    open spec fn label(&self) -> Seq<char> {
        self@
    }

    fn try_into_index(&self) -> (index: Result<u32, InvalidColumn>) {
        resolve(*self)
    }
}

impl Column for String {
    open spec fn label(&self) -> Seq<char> {
        self@
    }

    fn try_into_index(&self) -> (index: Result<u32, InvalidColumn>) {
        resolve(self.as_str())
    }
}

} // verus!
