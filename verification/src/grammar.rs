//! The shapes that a name line and a price line can have.
//!
//! A shape is a fixed order of literals and runs: a run is one character or
//! more of one class, and is always taken as long as it can be. A shape may
//! stand anywhere in its line; where it can be found at several places, the
//! leftmost is meant.

use crate::text::{
    all_in_class, chars_of, closes, has_at, in_class, lemma_run_end, lemma_run_end_unique, run_end,
    scan_run, starts_at, CharClass, Span,
};
use vstd::prelude::*;
use vstd::string::*;

verus! {

/// The four shapes of the line grammar.
#[derive(Clone, Copy, Debug)]
pub enum Shape {
    /// `(sold) #<digits>`: the item is sold and its detail is gone.
    Sold,
    /// `<name> (Vanilla) #<digits>`: an item without a kind.
    Vanilla,
    /// `<kind> (<exterior>) #<digits>`: what follows the name of a full item.
    Item,
    /// `price: <digits and commas>`.
    Price,
}

/// The sold marker, up to the digits of the order id.
pub open spec fn sold_mark() -> Seq<char> {
    "(sold) #"@
}

/// The sold marker as the page prints it.
pub open spec fn sold_mark_ja() -> Seq<char> {
    "(売約済み) #"@
}

/// What stands between the name of a vanilla item and the digits of its
/// order id, but for the space behind the name.
pub open spec fn vanilla_mark() -> Seq<char> {
    "(Vanilla) #"@
}

/// What opens the bracket of the exterior.
pub open spec fn grade_open() -> Seq<char> {
    "("@
}

/// What stands between the exterior and the digits of the order id.
pub open spec fn grade_close() -> Seq<char> {
    ") #"@
}

/// The price label, up to the digits of the price.
pub open spec fn price_label() -> Seq<char> {
    "price: "@
}

/// The price label as the page prints it.
pub open spec fn price_label_ja() -> Seq<char> {
    "販売価格: "@
}

/// What a match holds: the name or kind before the bracket, the exterior in
/// the bracket, and the digits (for a price: digits and commas). A shape
/// without one of them leaves it empty.
pub struct Captures {
    pub head: Seq<char>,
    pub grade: Seq<char>,
    pub digits: Seq<char>,
}

/// The longest run of `class` characters from `from`, if there is one.
pub open spec fn run_at(s: Seq<char>, from: int, class: CharClass) -> Option<Seq<char>> {
    if 0 <= from < run_end(s, from, class) {
        Some(s.subrange(from, run_end(s, from, class)))
    } else {
        None
    }
}

/// Where the word before a bracket ends, for a match that starts at `i`. The
/// word is made of letters and spaces, and a space parts it from the bracket:
/// so the longest run of word characters from `i` must end with that space,
/// just before the bracket, and the word is the run without it. The word is
/// not empty.
pub open spec fn word_end(s: Seq<char>, i: int) -> Option<int> {
    let m = run_end(s, i, CharClass::Word);
    if 0 <= i && i + 2 <= m && s[m - 1] == ' ' {
        Some(m - 1)
    } else {
        None
    }
}

/// The sold marker at `i`, in either of its two forms, and the digits
/// behind it.
pub open spec fn sold_at(s: Seq<char>, i: int) -> Option<Captures> {
    let from = if has_at(s, i, sold_mark()) {
        Some(i + sold_mark().len())
    } else if has_at(s, i, sold_mark_ja()) {
        Some(i + sold_mark_ja().len())
    } else {
        None
    };
    match from {
        Some(d) => match run_at(s, d, CharClass::Digit) {
            Some(digits) => Some(Captures { head: Seq::empty(), grade: Seq::empty(), digits }),
            None => None,
        },
        None => None,
    }
}

/// A name from `i`, the vanilla marker, and the digits behind it.
pub open spec fn vanilla_at(s: Seq<char>, i: int) -> Option<Captures> {
    match word_end(s, i) {
        Some(w) => if has_at(s, w + 1, vanilla_mark()) {
            match run_at(s, w + 1 + vanilla_mark().len(), CharClass::Digit) {
                Some(digits) => Some(
                    Captures { head: s.subrange(i, w), grade: Seq::empty(), digits },
                ),
                None => None,
            }
        } else {
            None
        },
        None => None,
    }
}

/// A kind from `i`, the exterior in its bracket, and the digits behind it.
pub open spec fn item_at(s: Seq<char>, i: int) -> Option<Captures> {
    match word_end(s, i) {
        Some(w) => if has_at(s, w + 1, grade_open()) {
            let g = w + 1 + grade_open().len();
            match run_at(s, g, CharClass::Grade) {
                Some(grade) => if has_at(s, g + grade.len(), grade_close()) {
                    match run_at(s, g + grade.len() + grade_close().len(), CharClass::Digit) {
                        Some(digits) => Some(Captures { head: s.subrange(i, w), grade, digits }),
                        None => None,
                    }
                } else {
                    None
                },
                None => None,
            }
        } else {
            None
        },
        None => None,
    }
}

/// The price label at `i`, in either of its two forms, and the digits and
/// commas behind it. What follows them, such as a currency sign, is not
/// part of the shape.
pub open spec fn price_at(s: Seq<char>, i: int) -> Option<Captures> {
    let from = if has_at(s, i, price_label()) {
        Some(i + price_label().len())
    } else if has_at(s, i, price_label_ja()) {
        Some(i + price_label_ja().len())
    } else {
        None
    };
    match from {
        Some(d) => match run_at(s, d, CharClass::Amount) {
            Some(digits) => Some(Captures { head: Seq::empty(), grade: Seq::empty(), digits }),
            None => None,
        },
        None => None,
    }
}

/// The match of `shape` that starts at `i`, if there is one. Every run in it
/// is as long as it can be.
pub open spec fn shape_at(s: Seq<char>, i: int, shape: Shape) -> Option<Captures> {
    match shape {
        Shape::Sold => sold_at(s, i),
        Shape::Vanilla => vanilla_at(s, i),
        Shape::Item => item_at(s, i),
        Shape::Price => price_at(s, i),
    }
}

/// The first match of `shape` that starts at `i` or later.
pub open spec fn first_match_from(s: Seq<char>, i: int, shape: Shape) -> Option<Captures>
    decreases s.len() - i,
{
    if i < 0 || i >= s.len() {
        None
    } else {
        match shape_at(s, i, shape) {
            Some(c) => Some(c),
            None => first_match_from(s, i + 1, shape),
        }
    }
}

/// The leftmost match of `shape` in `s`: a shape may stand anywhere in its
/// line, with any text before and behind it.
pub open spec fn first_match(s: Seq<char>, shape: Shape) -> Option<Captures> {
    first_match_from(s, 0, shape)
}

/// One character or more, all of `class`.
pub open spec fn is_run(r: Seq<char>, class: CharClass) -> bool {
    r.len() > 0 && all_in_class(r, class)
}

/// `text` stands in `s` at `i`, and its last run, a run of `class`, cannot
/// go on behind it.
pub open spec fn stands_at(s: Seq<char>, i: int, text: Seq<char>, class: CharClass) -> bool {
    has_at(s, i, text) && closes(s, i + text.len(), class)
}

/// The space that parts a name or a kind from the bracket behind it.
pub open spec fn gap() -> Seq<char> {
    seq![' ']
}

/// What `shape` looks like where it captures `c`.
pub open spec fn shape_text(shape: Shape, c: Captures, page_form: bool) -> Seq<char> {
    match shape {
        Shape::Sold => (if page_form {
            sold_mark_ja()
        } else {
            sold_mark()
        }) + c.digits,
        Shape::Vanilla => c.head + gap() + vanilla_mark() + c.digits,
        Shape::Item => c.head + gap() + grade_open() + c.grade + grade_close() + c.digits,
        Shape::Price => (if page_form {
            price_label_ja()
        } else {
            price_label()
        }) + c.digits,
    }
}

/// The class of the run that ends `shape`.
pub open spec fn last_class(shape: Shape) -> CharClass {
    match shape {
        Shape::Price => CharClass::Amount,
        _ => CharClass::Digit,
    }
}

/// `c` is what `shape` may capture: each run that the shape has is of its
/// class and not empty, and what the shape does not have is empty.
pub open spec fn fits_shape(shape: Shape, c: Captures) -> bool {
    match shape {
        Shape::Sold => c.head.len() == 0 && c.grade.len() == 0 && is_run(
            c.digits,
            CharClass::Digit,
        ),
        Shape::Vanilla => is_run(c.head, CharClass::Word) && c.grade.len() == 0 && is_run(
            c.digits,
            CharClass::Digit,
        ),
        Shape::Item => is_run(c.head, CharClass::Word) && is_run(c.grade, CharClass::Grade)
            && is_run(c.digits, CharClass::Digit),
        Shape::Price => c.head.len() == 0 && c.grade.len() == 0 && is_run(
            c.digits,
            CharClass::Amount,
        ),
    }
}

/// `shape` stands in `s` at `i` and captures `c`: the literals and runs of
/// the shape stand there one behind the other, and the last run cannot go
/// on. The sold marker and the price label may stand in either form.
pub open spec fn shaped(s: Seq<char>, i: int, shape: Shape, c: Captures) -> bool {
    &&& fits_shape(shape, c)
    &&& (stands_at(s, i, shape_text(shape, c, false), last_class(shape)) || stands_at(
        s,
        i,
        shape_text(shape, c, true),
        last_class(shape),
    ))
}

/// A text of two parts stands where its first part stands with the second
/// behind it.
pub proof fn lemma_has_at_add(s: Seq<char>, i: int, x: Seq<char>, y: Seq<char>)
    ensures
        has_at(s, i, x + y) <==> has_at(s, i, x) && has_at(s, i + x.len(), y),
{
    if has_at(s, i, x + y) {
        assert(s.subrange(i, i + x.len()) =~= (x + y).subrange(0, x.len() as int));
        assert((x + y).subrange(0, x.len() as int) =~= x);
        assert(s.subrange(i + x.len(), i + x.len() + y.len()) =~= (x + y).subrange(
            x.len() as int,
            (x + y).len() as int,
        ));
        assert((x + y).subrange(x.len() as int, (x + y).len() as int) =~= y);
    }
    if has_at(s, i, x) && has_at(s, i + x.len(), y) {
        assert(s.subrange(i, i + x.len() + y.len()) =~= s.subrange(i, i + x.len()) + s.subrange(
            i + x.len(),
            i + x.len() + y.len(),
        ));
    }
}

/// The longest run from `from` is the run that stands there and cannot go
/// on.
pub proof fn lemma_run_at(s: Seq<char>, from: int, class: CharClass, r: Seq<char>)
    ensures
        run_at(s, from, class) == Some(r) <==> is_run(r, class) && stands_at(s, from, r, class),
{
    if run_at(s, from, class) == Some(r) {
        if from <= s.len() {
            lemma_run_end(s, from, class);
        }
    }
    if is_run(r, class) && stands_at(s, from, r, class) {
        let end = from + r.len();
        assert forall|k: int| from <= k < end implies in_class(#[trigger] s[k], class) by {
            assert(s[k] == s.subrange(from, end)[k - from]);
        }
        lemma_run_end_unique(s, from, end, class);
    }
}

/// The word before a bracket ends at `w` where a run of word characters
/// stands from `i` up to `w`, with a space at `w` and no word character
/// behind the space.
pub proof fn lemma_word_end(s: Seq<char>, i: int, w: int)
    ensures
        word_end(s, i) == Some(w) <==> {
            &&& 0 <= i < w < s.len()
            &&& is_run(s.subrange(i, w), CharClass::Word)
            &&& s[w] == ' '
            &&& closes(s, w + 1, CharClass::Word)
        },
{
    if word_end(s, i) == Some(w) {
        lemma_run_end(s, i, CharClass::Word);
    }
    if 0 <= i < w < s.len() && is_run(s.subrange(i, w), CharClass::Word) && s[w] == ' ' && closes(
        s,
        w + 1,
        CharClass::Word,
    ) {
        assert forall|k: int| i <= k < w + 1 implies in_class(#[trigger] s[k], CharClass::Word) by {
            if k < w {
                assert(s[k] == s.subrange(i, w)[k - i]);
            }
        }
        lemma_run_end_unique(s, i, w + 1, CharClass::Word);
    }
}

/// A literal behind which a run is read, in its two forms: the match at
/// `i` is the form that stands there and the run behind it. The two forms
/// differ at their character `k`, so at most one of them stands there.
proof fn lemma_labelled_at(
    s: Seq<char>,
    i: int,
    first: Seq<char>,
    second: Seq<char>,
    k: int,
    class: CharClass,
    run: Seq<char>,
)
    requires
        0 <= k < first.len(),
        k < second.len(),
        first[k] != second[k],
    ensures
        ({
            let from = if has_at(s, i, first) {
                Some(i + first.len())
            } else if has_at(s, i, second) {
                Some(i + second.len())
            } else {
                None
            };
            (from matches Some(d) && run_at(s, d, class) == Some(run)) <==> is_run(run, class) && (
            stands_at(s, i, first + run, class) || stands_at(s, i, second + run, class))
        }),
{
    lemma_has_at_add(s, i, first, run);
    lemma_has_at_add(s, i, second, run);
    lemma_run_at(s, i + first.len(), class, run);
    lemma_run_at(s, i + second.len(), class, run);
    if has_at(s, i, first) && has_at(s, i, second) {
        assert(s.subrange(i, i + first.len())[k] == s[i + k]);
        assert(s.subrange(i, i + second.len())[k] == s[i + k]);
    }
}

proof fn lemma_sold_at(s: Seq<char>, i: int, c: Captures)
    ensures
        sold_at(s, i) == Some(c) <==> shaped(s, i, Shape::Sold, c),
{
    reveal_strlit("(sold) #");
    reveal_strlit("(売約済み) #");
    lemma_labelled_at(s, i, sold_mark(), sold_mark_ja(), 1, CharClass::Digit, c.digits);
    if shaped(s, i, Shape::Sold, c) {
        assert(c.head =~= Seq::<char>::empty());
        assert(c.grade =~= Seq::<char>::empty());
    }
}

proof fn lemma_price_at(s: Seq<char>, i: int, c: Captures)
    ensures
        price_at(s, i) == Some(c) <==> shaped(s, i, Shape::Price, c),
{
    reveal_strlit("price: ");
    reveal_strlit("販売価格: ");
    lemma_labelled_at(s, i, price_label(), price_label_ja(), 0, CharClass::Amount, c.digits);
    if shaped(s, i, Shape::Price, c) {
        assert(c.head =~= Seq::<char>::empty());
        assert(c.grade =~= Seq::<char>::empty());
    }
}

proof fn lemma_vanilla_at(s: Seq<char>, i: int, c: Captures)
    ensures
        vanilla_at(s, i) == Some(c) <==> shaped(s, i, Shape::Vanilla, c),
{
    reveal_strlit("(Vanilla) #");
    let mark = vanilla_mark();
    let w = i + c.head.len();
    let d = w + 1 + mark.len();
    lemma_word_end(s, i, w);
    lemma_run_at(s, d, CharClass::Digit, c.digits);
    lemma_has_at_add(s, i, c.head + gap() + mark, c.digits);
    lemma_has_at_add(s, i, c.head + gap(), mark);
    lemma_has_at_add(s, i, c.head, gap());
    if vanilla_at(s, i) == Some(c) {
        let found = word_end(s, i).unwrap();
        lemma_word_end(s, i, found);
        assert(s.subrange(w, w + 1) =~= gap());
    }
    if shaped(s, i, Shape::Vanilla, c) {
        assert(s.subrange(w, w + 1)[0] == s[w]);
        assert(s.subrange(w + 1, w + 1 + mark.len())[0] == s[w + 1]);
        assert(c.grade =~= Seq::<char>::empty());
    }
}

proof fn lemma_item_at(s: Seq<char>, i: int, c: Captures)
    ensures
        item_at(s, i) == Some(c) <==> shaped(s, i, Shape::Item, c),
{
    reveal_strlit("(");
    reveal_strlit(") #");
    let open = grade_open();
    let close = grade_close();
    let w = i + c.head.len();
    let g = w + 1 + open.len();
    let h = g + c.grade.len();
    let d = h + close.len();
    lemma_word_end(s, i, w);
    lemma_run_at(s, g, CharClass::Grade, c.grade);
    lemma_run_at(s, d, CharClass::Digit, c.digits);
    lemma_has_at_add(s, i, c.head + gap() + open + c.grade + close, c.digits);
    lemma_has_at_add(s, i, c.head + gap() + open + c.grade, close);
    lemma_has_at_add(s, i, c.head + gap() + open, c.grade);
    lemma_has_at_add(s, i, c.head + gap(), open);
    lemma_has_at_add(s, i, c.head, gap());
    if item_at(s, i) == Some(c) {
        let found = word_end(s, i).unwrap();
        lemma_word_end(s, i, found);
        assert(s.subrange(w, w + 1) =~= gap());
    }
    if shaped(s, i, Shape::Item, c) {
        assert(s.subrange(w, w + 1)[0] == s[w]);
        assert(s.subrange(w + 1, w + 1 + open.len())[0] == s[w + 1]);
        assert(s.subrange(h, h + close.len())[0] == s[h]);
    }
}

/// The match of a shape at `i` is what stands there in that shape: the
/// literals of the shape and its runs, each run as long as it can be.
pub proof fn lemma_shape_at(s: Seq<char>, i: int, shape: Shape, c: Captures)
    ensures
        shape_at(s, i, shape) == Some(c) <==> shaped(s, i, shape, c),
{
    match shape {
        Shape::Sold => lemma_sold_at(s, i, c),
        Shape::Vanilla => lemma_vanilla_at(s, i, c),
        Shape::Item => lemma_item_at(s, i, c),
        Shape::Price => lemma_price_at(s, i, c),
    }
}

/// Where in a line a match holds what it captured.
#[derive(Clone, Copy, Debug)]
pub struct Found {
    pub head: Span,
    pub grade: Span,
    pub digits: Span,
}

impl Found {
    /// The match lies within a line of `len` characters.
    pub open spec fn within(self, len: nat) -> bool {
        self.head.within(len) && self.grade.within(len) && self.digits.within(len)
    }

    /// What the match captured in `s`.
    pub open spec fn captures(self, s: Seq<char>) -> Captures {
        Captures { head: self.head.of(s), grade: self.grade.of(s), digits: self.digits.of(s) }
    }
}

/// What an optional match captured in `s`.
pub open spec fn captured(found: Option<Found>, s: Seq<char>) -> Option<Captures> {
    match found {
        Some(f) => Some(f.captures(s)),
        None => None,
    }
}

/// The literals of the grammar, as characters.
struct Marks {
    sold: Vec<char>,
    sold_ja: Vec<char>,
    vanilla: Vec<char>,
    grade_open: Vec<char>,
    grade_close: Vec<char>,
    price: Vec<char>,
    price_ja: Vec<char>,
}

impl Marks {
    spec fn well_formed(&self) -> bool {
        &&& self.sold@ == sold_mark()
        &&& self.sold_ja@ == sold_mark_ja()
        &&& self.vanilla@ == vanilla_mark()
        &&& self.grade_open@ == grade_open()
        &&& self.grade_close@ == grade_close()
        &&& self.price@ == price_label()
        &&& self.price_ja@ == price_label_ja()
    }

    fn new() -> (r: Marks)
        ensures
            r.well_formed(),
    {
        Marks {
            sold: chars_of("(sold) #"),
            sold_ja: chars_of("(売約済み) #"),
            vanilla: chars_of("(Vanilla) #"),
            grade_open: chars_of("("),
            grade_close: chars_of(") #"),
            price: chars_of("price: "),
            price_ja: chars_of("販売価格: "),
        }
    }
}

/// The stretch of a capture that a shape does not have: the empty stretch
/// at the start of the line.
fn empty_span(v: &Vec<char>) -> (r: Span)
    ensures
        r == (Span { start: 0, end: 0 }),
        r.within(v@.len()),
        r.of(v@) == Seq::<char>::empty(),
{
    Span { start: 0, end: 0 }
}

/// The longest run of `class` characters from `from`, if there is one.
fn find_run(v: &Vec<char>, from: usize, class: CharClass) -> (r: Option<Span>)
    requires
        from <= v.len(),
    ensures
        match r {
            Some(span) => span.within(v@.len()) && span.start == from && run_at(
                v@,
                from as int,
                class,
            ) == Some(span.of(v@)),
            None => run_at(v@, from as int, class) is None,
        },
{
    let end = scan_run(v, from, class);
    if end > from {
        Some(Span { start: from, end })
    } else {
        None
    }
}

fn find_word_end(v: &Vec<char>, i: usize) -> (r: Option<usize>)
    requires
        i <= v.len(),
    ensures
        match r {
            Some(w) => word_end(v@, i as int) == Some(w as int) && i < w < v.len(),
            None => word_end(v@, i as int) is None,
        },
{
    let m = scan_run(v, i, CharClass::Word);
    if m - i >= 2 && v[m - 1] == ' ' {
        Some(m - 1)
    } else {
        None
    }
}

/// One of two literals at `i`: where the text behind it begins.
fn find_label(v: &Vec<char>, i: usize, first: &Vec<char>, second: &Vec<char>) -> (r: Option<usize>)
    requires
        i <= v.len(),
    ensures
        r == (if has_at(v@, i as int, first@) {
            Some((i + first@.len()) as usize)
        } else if has_at(v@, i as int, second@) {
            Some((i + second@.len()) as usize)
        } else {
            None
        }),
        r matches Some(d) ==> d <= v.len(),
{
    if starts_at(v, i, first) {
        Some(i + first.len())
    } else if starts_at(v, i, second) {
        Some(i + second.len())
    } else {
        None
    }
}

/// The match of `shape` that starts at `i`, if there is one.
fn match_at(v: &Vec<char>, i: usize, shape: Shape, marks: &Marks) -> (r: Option<Found>)
    requires
        i <= v.len(),
        marks.well_formed(),
    ensures
        captured(r, v@) == shape_at(v@, i as int, shape),
        r matches Some(f) ==> f.within(v@.len()),
{
    match shape {
        Shape::Sold => {
            let d = find_label(v, i, &marks.sold, &marks.sold_ja)?;
            let digits = find_run(v, d, CharClass::Digit)?;
            Some(Found { head: empty_span(v), grade: empty_span(v), digits })
        },
        Shape::Vanilla => {
            let w = find_word_end(v, i)?;
            if !starts_at(v, w + 1, &marks.vanilla) {
                return None;
            }
            let digits = find_run(v, w + 1 + marks.vanilla.len(), CharClass::Digit)?;
            Some(Found { head: Span { start: i, end: w }, grade: empty_span(v), digits })
        },
        Shape::Item => {
            let w = find_word_end(v, i)?;
            if !starts_at(v, w + 1, &marks.grade_open) {
                return None;
            }
            let grade = find_run(v, w + 1 + marks.grade_open.len(), CharClass::Grade)?;
            if !starts_at(v, grade.end, &marks.grade_close) {
                return None;
            }
            let digits = find_run(v, grade.end + marks.grade_close.len(), CharClass::Digit)?;
            Some(Found { head: Span { start: i, end: w }, grade, digits })
        },
        Shape::Price => {
            let d = find_label(v, i, &marks.price, &marks.price_ja)?;
            let digits = find_run(v, d, CharClass::Amount)?;
            Some(Found { head: empty_span(v), grade: empty_span(v), digits })
        },
    }
}

/// The leftmost match of `shape` in `v`.
pub fn find_first(v: &Vec<char>, shape: Shape) -> (r: Option<Found>)
    ensures
        captured(r, v@) == first_match(v@, shape),
        r matches Some(f) ==> f.within(v@.len()),
{
    let marks = Marks::new();
    let mut i: usize = 0;
    while i < v.len()
        invariant
            i <= v.len(),
            marks.well_formed(),
            first_match(v@, shape) == first_match_from(v@, i as int, shape),
        decreases v.len() - i,
    {
        match match_at(v, i, shape, &marks) {
            Some(f) => {
                return Some(f);
            },
            None => {},
        }
        i = i + 1;
    }
    None
}

} // verus!
