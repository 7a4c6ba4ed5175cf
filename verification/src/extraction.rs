//! What the field extractor owes its callers: a line that is written in one
//! of the shapes is read back field by field, and a name line with too many
//! segments is refused.

use crate::grammar::{
    first_match, first_match_from, gap, grade_open, is_run, lemma_shape_at, price_label,
    price_label_ja, shape_text, sold_mark, sold_mark_ja, vanilla_mark, Captures, Shape,
};
use crate::models::{lemma_exterior_round_trip, Exterior, ItemView};
use crate::parsers::{
    normalized_name, parse_section, stattrak_prefix, ItemSectionView, ParseErrorView,
};
use crate::text::{
    all_in_class, decimal_value, has_at, in_class, is_digit, is_whitespace, lemma_decimal_i32,
    lemma_segments_nonempty, segments, segments_scan, separator, trim, without_commas,
    CharClass,
};
use vstd::prelude::*;
use vstd::string::*;

verus! {

/// A name line that the separator cuts into three segments or more has none
/// of the shapes: whatever the price line holds, extraction fails with
/// `InvalidItemFormat` and hands the line back. No line has fewer segments
/// than one.
pub proof fn lemma_segment_count_rejected(name_line: Seq<char>, price_line: Seq<char>)
    requires
        segments(name_line).len() == 0 || segments(name_line).len() >= 3,
    ensures
        segments(name_line).len() >= 3,
        parse_section(name_line, price_line) == Err::<ItemSectionView, ParseErrorView>(
            ParseErrorView::InvalidItemFormat(name_line),
        ),
{
    lemma_segments_nonempty(name_line, 0, 0);
}

/// The text of a grade is made of grade characters, and is not empty.
pub proof fn lemma_label_is_grade(e: Exterior)
    ensures
        e.label().len() > 0,
        all_in_class(e.label(), CharClass::Grade),
        e.code().len() > 0,
        all_in_class(e.code(), CharClass::Grade),
{
    reveal_strlit("FN");
    reveal_strlit("MW");
    reveal_strlit("FT");
    reveal_strlit("WW");
    reveal_strlit("BS");
    reveal_strlit("Factory New");
    reveal_strlit("Minimal Wear");
    reveal_strlit("Field-Tested");
    reveal_strlit("Well-Worn");
    reveal_strlit("Battle-Scarred");
    let l = e.label();
    assert forall|k: int| 0 <= k < l.len() implies in_class(#[trigger] l[k], CharClass::Grade) by {
        if k == 0 {
        } else if k == 1 {
        } else if k == 2 {
        } else if k == 3 {
        } else if k == 4 {
        } else if k == 5 {
        } else if k == 6 {
        } else if k == 7 {
        } else if k == 8 {
        } else if k == 9 {
        } else if k == 10 {
        } else if k == 11 {
        } else if k == 12 {
        } else if k == 13 {
        }
    }
    let c = e.code();
    assert forall|k: int| 0 <= k < c.len() implies in_class(#[trigger] c[k], CharClass::Grade) by {
        if k == 0 {
        } else if k == 1 {
        }
    }
}

/// A kind, a grade in its bracket and an order id, written out one behind
/// the other, are found again as they were written: the leftmost match of
/// the item shape begins with the kind and captures the three of them.
pub proof fn lemma_item_shape(
    kind: Seq<char>,
    grade: Seq<char>,
    digits: Seq<char>,
    tail: Seq<char>,
)
    requires
        is_run(kind, CharClass::Word),
        is_run(grade, CharClass::Grade),
        is_run(digits, CharClass::Digit),
        tail.len() == 0 || !is_digit(tail[0]),
    ensures
        first_match(kind + " ("@ + grade + ") #"@ + digits + tail, Shape::Item) == Some(
            Captures { head: kind, grade, digits },
        ),
{
    reveal_strlit(" (");
    reveal_strlit("(");
    let c = Captures { head: kind, grade, digits };
    let text = shape_text(Shape::Item, c, false);
    let s = kind + " ("@ + grade + ") #"@ + digits + tail;
    assert(" ("@ =~= gap() + grade_open());
    assert(s.subrange(0, text.len() as int) =~= text);
    lemma_shape_at(s, 0, Shape::Item, c);
}

/// A price label with digits and commas behind it is found where it was
/// written: the leftmost match of the price shape captures those digits and
/// commas.
pub proof fn lemma_price_shape(label: Seq<char>, amount: Seq<char>, tail: Seq<char>)
    requires
        label == price_label() || label == price_label_ja(),
        is_run(amount, CharClass::Amount),
        tail.len() == 0 || !in_class(tail[0], CharClass::Amount),
    ensures
        first_match(label + amount + tail, Shape::Price) == Some(
            Captures { head: Seq::empty(), grade: Seq::empty(), digits: amount },
        ),
{
    reveal_strlit("price: ");
    let c = Captures { head: Seq::empty(), grade: Seq::empty(), digits: amount };
    let text = label + amount;
    let s = label + amount + tail;
    assert(s.subrange(0, text.len() as int) =~= text);
    lemma_shape_at(s, 0, Shape::Price, c);
}

/// Digits and commas without the commas are digits.
pub proof fn lemma_without_commas_digits(s: Seq<char>)
    requires
        all_in_class(s, CharClass::Amount),
    ensures
        all_in_class(without_commas(s), CharClass::Digit),
    decreases s.len(),
{
    if s.len() > 0 {
        lemma_without_commas_digits(s.drop_last());
    }
}

/// Text that neither begins nor ends with white space is left as it is.
pub proof fn lemma_trim_identity(s: Seq<char>)
    requires
        s.len() > 0 ==> !is_whitespace(s.first()) && !is_whitespace(s.last()),
    ensures
        trim(s) == s,
{
}

/// A name with no white space round it and no `StatTrak ` prefix is kept as
/// it is; with the prefix, it is kept without it, and the flag is set.
pub proof fn lemma_name_kept(name: Seq<char>)
    requires
        name.len() > 0 ==> !is_whitespace(name.first()) && !is_whitespace(name.last()),
    ensures
        !has_at(name, 0, stattrak_prefix()) ==> normalized_name(name) == (name, false),
        has_at(name, 0, stattrak_prefix()) ==> normalized_name(name) == (
            name.subrange(stattrak_prefix().len() as int, name.len() as int),
            true,
        ),
{
    lemma_trim_identity(name);
}

/// Two texts without a bar, with the separator between them, are cut into
/// those two texts again.
pub proof fn lemma_two_segments(name: Seq<char>, rest: Seq<char>)
    requires
        forall|k: int| 0 <= k < name.len() ==> name[k] != '|',
        forall|k: int| 0 <= k < rest.len() ==> rest[k] != '|',
    ensures
        segments(name + separator() + rest) == seq![name, rest],
{
    let s = name + separator() + rest;
    let a = name.len() as int;
    lemma_no_separator(s, a + 3, a + 3);
    assert(s.subrange(a + 3, s.len() as int) =~= rest);
    assert(s.subrange(a, a + 3) =~= separator());
    lemma_first_separator(s, 0, a);
    assert(s.subrange(0, a) =~= name);
}

/// Where no bar stands from `i` on, nothing is cut.
proof fn lemma_no_separator(s: Seq<char>, start: int, i: int)
    requires
        0 <= start <= i,
        forall|k: int| i <= k < s.len() ==> s[k] != '|',
    ensures
        segments_scan(s, start, i) == seq![s.subrange(start, s.len() as int)],
    decreases s.len() - i,
{
    if i + 3 <= s.len() {
        lemma_no_separator(s, start, i + 1);
    }
}

/// The first separator from `i` on is where the first bar stands.
proof fn lemma_first_separator(s: Seq<char>, i: int, a: int)
    requires
        0 <= i <= a,
        has_at(s, a, separator()),
        forall|k: int| 0 <= k <= a ==> s[k] != '|',
    ensures
        segments_scan(s, 0, i) == seq![s.subrange(0, a)] + segments_scan(s, a + 3, a + 3),
    decreases a - i,
{
    if i < a {
        lemma_first_separator(s, i + 1, a);
    }
}

/// A name line and a price line of the full-item shape are read back field
/// by field.
///
/// The name line is cut into a name and, behind the separator, a kind of
/// letters and spaces, an exterior in its bracket, written as its label or
/// as its short code, and the digits of an order id that fits an `i32`. The
/// price line begins with the price label, behind which stand digits and
/// commas that spell a number that fits an `i32`. Then extraction succeeds:
/// the order id and the price are the numbers written, the exterior is the
/// one written, the kind is the kind written, without the white space round
/// it, and the name is the name written, without the white space round it
/// and without a `StatTrak ` prefix, which sets the flag. The item is not
/// sold.
pub proof fn lemma_full_item_recovered(
    name_line: Seq<char>,
    name: Seq<char>,
    kind: Seq<char>,
    exterior: Exterior,
    grade: Seq<char>,
    id_digits: Seq<char>,
    id_tail: Seq<char>,
    price_line: Seq<char>,
    label: Seq<char>,
    amount: Seq<char>,
    amount_tail: Seq<char>,
)
    requires
        segments(name_line) == seq![name, kind + " ("@ + grade + ") #"@ + id_digits + id_tail],
        kind.len() > 0,
        all_in_class(kind, CharClass::Word),
        exterior.named_by(grade),
        id_digits.len() > 0,
        all_in_class(id_digits, CharClass::Digit),
        decimal_value(id_digits) <= i32::MAX,
        id_tail.len() == 0 || !is_digit(id_tail[0]),
        price_line == label + amount + amount_tail,
        label == price_label() || label == price_label_ja(),
        amount.len() > 0,
        all_in_class(amount, CharClass::Amount),
        amount_tail.len() == 0 || !in_class(amount_tail[0], CharClass::Amount),
        without_commas(amount).len() > 0,
        decimal_value(without_commas(amount)) <= i32::MAX,
    ensures
        parse_section(name_line, price_line) == Ok::<ItemSectionView, ParseErrorView>(
            ItemSectionView {
                item: Some(
                    ItemView {
                        order_id: decimal_value(id_digits) as i32,
                        name: normalized_name(name).0,
                        kind: Some(trim(kind)),
                        exterior: Some(exterior),
                        price: decimal_value(without_commas(amount)) as i32,
                        has_sold: false,
                        is_stattrak: normalized_name(name).1,
                    },
                ),
                order_id: decimal_value(id_digits) as i32,
                price: decimal_value(without_commas(amount)) as i32,
            },
        ),
{
    lemma_label_is_grade(exterior);
    lemma_exterior_round_trip(exterior);
    lemma_item_shape(kind, grade, id_digits, id_tail);
    lemma_decimal_i32(id_digits);
    lemma_price_shape(label, amount, amount_tail);
    lemma_without_commas_digits(amount);
    lemma_decimal_i32(without_commas(amount));
}

/// A line without a bar is one segment.
pub proof fn lemma_one_segment(line: Seq<char>)
    requires
        forall|k: int| 0 <= k < line.len() ==> line[k] != '|',
    ensures
        segments(line) == seq![line],
{
    lemma_no_separator(line, 0, 0);
    assert(line.subrange(0, line.len() as int) =~= line);
}

/// Where no bracket opens from `i` on with `s` or `売` behind it, no sold
/// marker is found from `i` on.
proof fn lemma_no_sold_marker(s: Seq<char>, i: int)
    requires
        0 <= i,
        forall|k: int|
            i <= k && k + 1 < s.len() && #[trigger] s[k] == '(' ==> s[k + 1] != 's' && s[k + 1]
                != '売',
    ensures
        first_match_from(s, i, Shape::Sold) is None,
    decreases s.len() - i,
{
    reveal_strlit("(sold) #");
    reveal_strlit("(売約済み) #");
    if i < s.len() {
        if has_at(s, i, sold_mark()) {
            assert(s.subrange(i, i + sold_mark().len())[0] == s[i]);
            assert(s.subrange(i, i + sold_mark().len())[1] == s[i + 1]);
        }
        if has_at(s, i, sold_mark_ja()) {
            assert(s.subrange(i, i + sold_mark_ja().len())[0] == s[i]);
            assert(s.subrange(i, i + sold_mark_ja().len())[1] == s[i + 1]);
        }
        lemma_no_sold_marker(s, i + 1);
    }
}

/// A sold marker, written out as the page writes it, is read as a section
/// without an item.
///
/// The name line is the sold marker, in either of its forms, and the digits
/// of an order id that fits an `i32`; behind them there is no bar. With a
/// price line as in `lemma_full_item_recovered`, extraction succeeds: the
/// section has the order id and the price written, and no item.
pub proof fn lemma_sold_line(
    mark: Seq<char>,
    id_digits: Seq<char>,
    id_tail: Seq<char>,
    label: Seq<char>,
    amount: Seq<char>,
    amount_tail: Seq<char>,
)
    requires
        mark == sold_mark() || mark == sold_mark_ja(),
        is_run(id_digits, CharClass::Digit),
        decimal_value(id_digits) <= i32::MAX,
        id_tail.len() == 0 || !is_digit(id_tail[0]),
        forall|k: int| 0 <= k < id_tail.len() ==> id_tail[k] != '|',
        label == price_label() || label == price_label_ja(),
        is_run(amount, CharClass::Amount),
        amount_tail.len() == 0 || !in_class(amount_tail[0], CharClass::Amount),
        without_commas(amount).len() > 0,
        decimal_value(without_commas(amount)) <= i32::MAX,
    ensures
        parse_section(mark + id_digits + id_tail, label + amount + amount_tail) == Ok::<
            ItemSectionView,
            ParseErrorView,
        >(
            ItemSectionView {
                item: None,
                order_id: decimal_value(id_digits) as i32,
                price: decimal_value(without_commas(amount)) as i32,
            },
        ),
{
    reveal_strlit("(sold) #");
    reveal_strlit("(売約済み) #");
    let line = mark + id_digits + id_tail;
    let c = Captures { head: Seq::empty(), grade: Seq::empty(), digits: id_digits };
    let text = mark + id_digits;
    assert forall|k: int| 0 <= k < line.len() implies line[k] != '|' by {
        if k < mark.len() {
            if k == 0 {
            } else if k == 1 {
            } else if k == 2 {
            } else if k == 3 {
            } else if k == 4 {
            } else if k == 5 {
            } else if k == 6 {
            } else if k == 7 {
            } else if k == 8 {
            }
        } else if k < text.len() {
            assert(in_class(id_digits[k - mark.len()], CharClass::Digit));
        } else {
            assert(line[k] == id_tail[k - text.len()]);
        }
    }
    lemma_one_segment(line);
    assert(line.subrange(0, text.len() as int) =~= text);
    lemma_shape_at(line, 0, Shape::Sold, c);
    lemma_decimal_i32(id_digits);
    lemma_price_shape(label, amount, amount_tail);
    lemma_without_commas_digits(amount);
    lemma_decimal_i32(without_commas(amount));
}

/// A vanilla item, written out as the page writes it, is read back as
/// written.
///
/// The name line is a name of letters and spaces, the vanilla marker and the
/// digits of an order id that fits an `i32`; behind them there is neither a
/// bar nor a bracket. With a price line as in `lemma_full_item_recovered`,
/// extraction succeeds: the item has the order id and the price written, the
/// name written, without the white space round it and without a `StatTrak `
/// prefix, which sets the flag, and neither kind nor exterior. It is not
/// sold.
pub proof fn lemma_vanilla_line(
    name: Seq<char>,
    id_digits: Seq<char>,
    id_tail: Seq<char>,
    label: Seq<char>,
    amount: Seq<char>,
    amount_tail: Seq<char>,
)
    requires
        is_run(name, CharClass::Word),
        is_run(id_digits, CharClass::Digit),
        decimal_value(id_digits) <= i32::MAX,
        id_tail.len() == 0 || !is_digit(id_tail[0]),
        forall|k: int| 0 <= k < id_tail.len() ==> id_tail[k] != '|' && id_tail[k] != '(',
        label == price_label() || label == price_label_ja(),
        is_run(amount, CharClass::Amount),
        amount_tail.len() == 0 || !in_class(amount_tail[0], CharClass::Amount),
        without_commas(amount).len() > 0,
        decimal_value(without_commas(amount)) <= i32::MAX,
    ensures
        parse_section(
            name + gap() + vanilla_mark() + id_digits + id_tail,
            label + amount + amount_tail,
        ) == Ok::<ItemSectionView, ParseErrorView>(
            ItemSectionView {
                item: Some(
                    ItemView {
                        order_id: decimal_value(id_digits) as i32,
                        name: normalized_name(name).0,
                        kind: None,
                        exterior: None,
                        price: decimal_value(without_commas(amount)) as i32,
                        has_sold: false,
                        is_stattrak: normalized_name(name).1,
                    },
                ),
                order_id: decimal_value(id_digits) as i32,
                price: decimal_value(without_commas(amount)) as i32,
            },
        ),
{
    reveal_strlit("(Vanilla) #");
    let mark = vanilla_mark();
    let line = name + gap() + mark + id_digits + id_tail;
    let c = Captures { head: name, grade: Seq::empty(), digits: id_digits };
    let text = name + gap() + mark + id_digits;
    let a = name.len() as int;
    let d = a + 1 + mark.len();
    let e = d + id_digits.len();
    // The one bracket of the line is that of the marker.
    assert forall|k: int| 0 <= k < line.len() implies line[k] != '|' && (line[k] == '(' ==> k == a
        + 1) by {
        if k < a {
            assert(in_class(name[k], CharClass::Word));
        } else if k == a {
        } else if k < d {
            let m = k - a - 1;
            assert(line[k] == mark[m]);
            if m == 0 {
            } else if m == 1 {
            } else if m == 2 {
            } else if m == 3 {
            } else if m == 4 {
            } else if m == 5 {
            } else if m == 6 {
            } else if m == 7 {
            } else if m == 8 {
            } else if m == 9 {
            } else if m == 10 {
            }
        } else if k < e {
            assert(in_class(id_digits[k - d], CharClass::Digit));
        } else {
            assert(line[k] == id_tail[k - e]);
        }
    }
    assert(line[a + 2] == mark[1]);
    lemma_one_segment(line);
    lemma_no_sold_marker(line, 0);
    assert(line.subrange(0, text.len() as int) =~= text);
    lemma_shape_at(line, 0, Shape::Vanilla, c);
    lemma_decimal_i32(id_digits);
    lemma_price_shape(label, amount, amount_tail);
    lemma_without_commas_digits(amount);
    lemma_decimal_i32(without_commas(amount));
}

/// A full item, written out as the page writes it, is read back as written.
///
/// The name line is a name without a bar, the separator, a kind of letters
/// and spaces, an exterior in its bracket, written as its label or as its
/// short code, and the digits of an order id that fits an `i32`; the price
/// line is as in `lemma_full_item_recovered`. Then extraction succeeds with
/// the fields written. A name and a kind come back as they were written
/// where they neither begin nor end with white space, and the name has no
/// `StatTrak ` prefix; with the prefix, the name comes back without it, and
/// the flag is set.
pub proof fn lemma_full_item_line(
    name: Seq<char>,
    kind: Seq<char>,
    exterior: Exterior,
    grade: Seq<char>,
    id_digits: Seq<char>,
    id_tail: Seq<char>,
    label: Seq<char>,
    amount: Seq<char>,
    amount_tail: Seq<char>,
)
    requires
        forall|k: int| 0 <= k < name.len() ==> name[k] != '|',
        kind.len() > 0,
        all_in_class(kind, CharClass::Word),
        exterior.named_by(grade),
        id_digits.len() > 0,
        all_in_class(id_digits, CharClass::Digit),
        decimal_value(id_digits) <= i32::MAX,
        id_tail.len() == 0 || !is_digit(id_tail[0]),
        forall|k: int| 0 <= k < id_tail.len() ==> id_tail[k] != '|',
        label == price_label() || label == price_label_ja(),
        amount.len() > 0,
        all_in_class(amount, CharClass::Amount),
        amount_tail.len() == 0 || !in_class(amount_tail[0], CharClass::Amount),
        without_commas(amount).len() > 0,
        decimal_value(without_commas(amount)) <= i32::MAX,
    ensures
        parse_section(
            name + separator() + (kind + " ("@ + grade + ") #"@ + id_digits + id_tail),
            label + amount + amount_tail,
        ) == Ok::<ItemSectionView, ParseErrorView>(
            ItemSectionView {
                item: Some(
                    ItemView {
                        order_id: decimal_value(id_digits) as i32,
                        name: normalized_name(name).0,
                        kind: Some(trim(kind)),
                        exterior: Some(exterior),
                        price: decimal_value(without_commas(amount)) as i32,
                        has_sold: false,
                        is_stattrak: normalized_name(name).1,
                    },
                ),
                order_id: decimal_value(id_digits) as i32,
                price: decimal_value(without_commas(amount)) as i32,
            },
        ),
        !is_whitespace(kind.first()) && !is_whitespace(kind.last()) ==> trim(kind) == kind,
        name.len() > 0 && !is_whitespace(name.first()) && !is_whitespace(name.last()) ==> {
            &&& !has_at(name, 0, stattrak_prefix()) ==> normalized_name(name) == (name, false)
            &&& has_at(name, 0, stattrak_prefix()) ==> normalized_name(name) == (
                name.subrange(stattrak_prefix().len() as int, name.len() as int),
                true,
            )
        },
{
    reveal_strlit(" (");
    reveal_strlit(") #");
    let rest = kind + " ("@ + grade + ") #"@ + id_digits + id_tail;
    lemma_label_is_grade(exterior);
    let a = kind.len() as int;
    let g = a + 2;
    let h = g + grade.len();
    let d = h + 3;
    let e = d + id_digits.len();
    assert forall|k: int| 0 <= k < rest.len() implies rest[k] != '|' by {
        if k < a {
            assert(in_class(kind[k], CharClass::Word));
        } else if k < g {
        } else if k < h {
            assert(in_class(grade[k - g], CharClass::Grade));
        } else if k < d {
        } else if k < e {
            assert(in_class(id_digits[k - d], CharClass::Digit));
        } else {
            assert(rest[k] == id_tail[k - e]);
        }
    }
    lemma_two_segments(name, rest);
    lemma_full_item_recovered(
        name + separator() + rest,
        name,
        kind,
        exterior,
        grade,
        id_digits,
        id_tail,
        label + amount + amount_tail,
        label,
        amount,
        amount_tail,
    );
    if !is_whitespace(kind.first()) && !is_whitespace(kind.last()) {
        lemma_trim_identity(kind);
    }
    if name.len() > 0 && !is_whitespace(name.first()) && !is_whitespace(name.last()) {
        lemma_name_kept(name);
    }
}

} // verus!
