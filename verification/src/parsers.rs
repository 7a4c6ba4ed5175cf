//! From the lines of the page to parsed sections: the field extractor, which
//! reads one name line and one price line, and the section parser, which
//! finds the blocks in the run of lines.

use crate::grammar::{find_first, first_match, Captures, Found, Shape};
use crate::models::{Exterior, Item, ItemView};
use crate::text::{
    chars_of, decimal_i32, has_at, lemma_decimal_scan_nonnegative, parse_decimal, segments,
    split_segments, starts_at, strip_commas, trim, trim_bounds, without_commas, NumberError, Span,
};
use vstd::prelude::*;
use vstd::string::*;

verus! {

/// One block of the page. A block that only says that its item is sold has
/// no item; its price is then the last price known.
#[derive(Debug)]
pub struct ItemSection {
    pub item: Option<Item>,
    pub order_id: i32,
    pub price: i32,
}

/// What an `ItemSection` holds.
pub struct ItemSectionView {
    pub item: Option<ItemView>,
    pub order_id: i32,
    pub price: i32,
}

impl View for ItemSection {
    type V = ItemSectionView;

    open spec fn view(&self) -> ItemSectionView {
        ItemSectionView {
            item: self.item.deep_view(),
            order_id: self.order_id,
            price: self.price,
        }
    }
}

impl DeepView for ItemSection {
    type V = ItemSectionView;

    open spec fn deep_view(&self) -> ItemSectionView {
        self@
    }
}

impl ItemSectionView {
    /// The item of a section, where there is one, is an unsold item with an
    /// exterior exactly when it has a kind, and has the section's order id
    /// and price; neither number is negative.
    pub open spec fn well_formed(self) -> bool {
        &&& self.order_id >= 0
        &&& self.price >= 0
        &&& self.item matches Some(item) ==> {
            &&& item.order_id == self.order_id
            &&& item.price == self.price
            &&& !item.has_sold
            &&& item.well_formed()
        }
    }
}

/// Why a name line and a price line are not a section.
#[derive(Debug)]
pub enum ParseError {
    /// The line has none of the shapes of the grammar; the line is kept.
    InvalidItemFormat(String),
    /// The digits of an order id or of a price are not an `i32`.
    InvalidNumber(NumberError),
    /// The bracket of a full item names no exterior; its text is kept.
    InvalidExterior(String),
}

/// What a `ParseError` holds.
pub enum ParseErrorView {
    InvalidItemFormat(Seq<char>),
    InvalidNumber(NumberError),
    InvalidExterior(Seq<char>),
}

impl View for ParseError {
    type V = ParseErrorView;

    open spec fn view(&self) -> ParseErrorView {
        match self {
            ParseError::InvalidItemFormat(line) => ParseErrorView::InvalidItemFormat(line@),
            ParseError::InvalidNumber(e) => ParseErrorView::InvalidNumber(*e),
            ParseError::InvalidExterior(text) => ParseErrorView::InvalidExterior(text@),
        }
    }
}

impl DeepView for ParseError {
    type V = ParseErrorView;

    open spec fn deep_view(&self) -> ParseErrorView {
        self@
    }
}

impl ParseErrorView {
    /// What the error says.
    pub open spec fn message(self) -> Seq<char> {
        match self {
            ParseErrorView::InvalidItemFormat(line) =>
                "invalid item format (expected `name | kind (exterior) #id` or `name (Vanilla) #id` or `(sold) #id`, found `"@
                + line + "`)"@,
            ParseErrorView::InvalidNumber(e) => e.message(),
            ParseErrorView::InvalidExterior(text) =>
                "invalid exterior (expected `FN`, `MW`, `FT`, `WW` or `BS` found `"@ + text
                + "`)"@,
        }
    }
}

impl ParseError {
    /// What the error says.
    pub fn to_string(&self) -> (r: String)
        ensures
            r@ == self@.message(),
    {
        match self {
            ParseError::InvalidItemFormat(line) => {
                let mut r =
                    "invalid item format (expected `name | kind (exterior) #id` or `name (Vanilla) #id` or `(sold) #id`, found `".to_owned();
                r.append(line.as_str());
                r.append("`)");
                r
            },
            ParseError::InvalidNumber(e) => e.as_str().to_owned(),
            ParseError::InvalidExterior(text) => {
                let mut r =
                    "invalid exterior (expected `FN`, `MW`, `FT`, `WW` or `BS` found `".to_owned();
                r.append(text.as_str());
                r.append("`)");
                r
            },
        }
    }
}

/// The prefix that marks a name as that of a StatTrak item.
pub open spec fn stattrak_prefix() -> Seq<char> {
    "StatTrak "@
}

/// A name as it is kept: without the white space round it and, where it then
/// begins with `StatTrak `, without that prefix. The flag says whether the
/// prefix was there.
pub open spec fn normalized_name(raw: Seq<char>) -> (Seq<char>, bool) {
    let t = trim(raw);
    if has_at(t, 0, stattrak_prefix()) {
        (t.subrange(stattrak_prefix().len() as int, t.len() as int), true)
    } else {
        (t, false)
    }
}

/// What a name line says: the order id and, unless the line is a sold
/// marker, the item but for its price.
pub struct NameFields {
    pub order_id: i32,
    pub listing: Option<Listing>,
}

/// The fields of an item that its name line gives.
pub struct Listing {
    pub name: Seq<char>,
    pub is_stattrak: bool,
    pub kind: Option<Seq<char>>,
    pub exterior: Option<Exterior>,
}

/// The order id that a match captured.
pub open spec fn order_id_of(c: Captures) -> Result<i32, ParseErrorView> {
    match decimal_i32(c.digits) {
        Ok(id) => Ok(id),
        Err(e) => Err(ParseErrorView::InvalidNumber(e)),
    }
}

/// A line of one segment: a sold marker, or else a vanilla item.
pub open spec fn parse_single(line: Seq<char>, seg: Seq<char>) -> Result<
    NameFields,
    ParseErrorView,
> {
    match first_match(seg, Shape::Sold) {
        Some(c) => match order_id_of(c) {
            Ok(order_id) => Ok(NameFields { order_id, listing: None }),
            Err(e) => Err(e),
        },
        None => match first_match(seg, Shape::Vanilla) {
            Some(c) => match order_id_of(c) {
                Ok(order_id) => Ok(
                    NameFields {
                        order_id,
                        listing: Some(
                            Listing {
                                name: normalized_name(c.head).0,
                                is_stattrak: normalized_name(c.head).1,
                                kind: None,
                                exterior: None,
                            },
                        ),
                    },
                ),
                Err(e) => Err(e),
            },
            None => Err(ParseErrorView::InvalidItemFormat(line)),
        },
    }
}

/// A line of two segments: the name, then kind, exterior and order id.
pub open spec fn parse_pair(line: Seq<char>, name: Seq<char>, rest: Seq<char>) -> Result<
    NameFields,
    ParseErrorView,
> {
    match first_match(rest, Shape::Item) {
        Some(c) => match Exterior::parse(c.grade) {
            Some(exterior) => match order_id_of(c) {
                Ok(order_id) => Ok(
                    NameFields {
                        order_id,
                        listing: Some(
                            Listing {
                                name: normalized_name(name).0,
                                is_stattrak: normalized_name(name).1,
                                kind: Some(trim(c.head)),
                                exterior: Some(exterior),
                            },
                        ),
                    },
                ),
                Err(e) => Err(e),
            },
            None => Err(ParseErrorView::InvalidExterior(c.grade)),
        },
        None => Err(ParseErrorView::InvalidItemFormat(line)),
    }
}

/// What the name line `line` says. The shapes are tried in this order: the
/// sold marker and the vanilla item on a line of one segment, the full item
/// on a line of two. A line of any other number of segments has no shape.
pub open spec fn parse_name_line(line: Seq<char>) -> Result<NameFields, ParseErrorView> {
    let segs = segments(line);
    if segs.len() == 1 {
        parse_single(line, segs[0])
    } else if segs.len() == 2 {
        parse_pair(line, segs[0], segs[1])
    } else {
        Err(ParseErrorView::InvalidItemFormat(line))
    }
}

/// The price that the price line `line` gives: the digits behind the price
/// label, read without their commas.
pub open spec fn parse_price_line(line: Seq<char>) -> Result<i32, ParseErrorView> {
    match first_match(line, Shape::Price) {
        Some(c) => match decimal_i32(without_commas(c.digits)) {
            Ok(price) => Ok(price),
            Err(e) => Err(ParseErrorView::InvalidNumber(e)),
        },
        None => Err(ParseErrorView::InvalidItemFormat(line)),
    }
}

/// The section made of what a name line says and of a price. Its item, where
/// there is one, is not sold.
pub open spec fn assemble(fields: NameFields, price: i32) -> ItemSectionView {
    ItemSectionView {
        item: match fields.listing {
            Some(l) => Some(
                ItemView {
                    order_id: fields.order_id,
                    name: l.name,
                    kind: l.kind,
                    exterior: l.exterior,
                    price,
                    has_sold: false,
                    is_stattrak: l.is_stattrak,
                },
            ),
            None => None,
        },
        order_id: fields.order_id,
        price,
    }
}

/// The section that a name line and a price line make. The name line is read
/// first, so its error comes before that of the price line.
pub open spec fn parse_section(name_line: Seq<char>, price_line: Seq<char>) -> Result<
    ItemSectionView,
    ParseErrorView,
> {
    match parse_name_line(name_line) {
        Ok(fields) => match parse_price_line(price_line) {
            Ok(price) => Ok(assemble(fields, price)),
            Err(e) => Err(e),
        },
        Err(e) => Err(e),
    }
}

/// Every section that the field extractor gives is well formed: its numbers
/// are not negative, and its item, where it has one, is an unsold item with
/// the order id and the price of the section, and with an exterior exactly
/// when it has a kind.
pub proof fn lemma_section_well_formed(name_line: Seq<char>, price_line: Seq<char>)
    ensures
        parse_section(name_line, price_line) matches Ok(section) ==> section.well_formed(),
{
    let segs = segments(name_line);
    if segs.len() == 1 {
        match first_match(segs[0], Shape::Sold) {
            Some(c) => {
                lemma_decimal_scan_nonnegative(c.digits, c.digits.len() as int);
            },
            None => match first_match(segs[0], Shape::Vanilla) {
                Some(c) => {
                    lemma_decimal_scan_nonnegative(c.digits, c.digits.len() as int);
                },
                None => {},
            },
        }
    } else if segs.len() == 2 {
        match first_match(segs[1], Shape::Item) {
            Some(c) => {
                lemma_decimal_scan_nonnegative(c.digits, c.digits.len() as int);
            },
            None => {},
        }
    }
    match first_match(price_line, Shape::Price) {
        Some(c) => {
            let digits = without_commas(c.digits);
            lemma_decimal_scan_nonnegative(digits, digits.len() as int);
        },
        None => {},
    }
}

/// What a result of the field extractor holds.
pub open spec fn section_result_view(r: Result<ItemSection, ParseError>) -> Result<
    ItemSectionView,
    ParseErrorView,
> {
    match r {
        Ok(section) => Ok(section@),
        Err(e) => Err(e@),
    }
}

/// The characters of `s` that `span` covers.
fn stretch<'a>(s: &'a str, span: Span) -> (r: &'a str)
    requires
        span.within(s@.len()),
    ensures
        r@ == span.of(s@),
{
    s.substring_char(span.start, span.end)
}

fn trimmed<'a>(raw: &'a str) -> (r: &'a str)
    ensures
        r@ == trim(raw@),
{
    let chars = chars_of(raw);
    let (start, end) = trim_bounds(&chars);
    raw.substring_char(start, end)
}

fn normalize_name(raw: &str) -> (r: (String, bool))
    ensures
        r.0@ == normalized_name(raw@).0,
        r.1 == normalized_name(raw@).1,
{
    let t = trimmed(raw);
    let chars = chars_of(t);
    let prefix = chars_of("StatTrak ");
    if starts_at(&chars, 0, &prefix) {
        (t.substring_char(prefix.len(), chars.len()).to_owned(), true)
    } else {
        (t.to_owned(), false)
    }
}

fn read_order_id(seg: &str, found: Found) -> (r: Result<i32, ParseError>)
    requires
        found.within(seg@.len()),
    ensures
        match r {
            Ok(id) => order_id_of(found.captures(seg@)) == Ok::<i32, ParseErrorView>(id),
            Err(e) => order_id_of(found.captures(seg@)) == Err::<i32, ParseErrorView>(e@),
        },
{
    let digits = chars_of(stretch(seg, found.digits));
    match parse_decimal(&digits) {
        Ok(id) => Ok(id),
        Err(e) => Err(ParseError::InvalidNumber(e)),
    }
}

/// What a name line says, as a section whose price is still to come.
spec fn name_line_section(line: Seq<char>) -> Result<ItemSectionView, ParseErrorView> {
    match parse_name_line(line) {
        Ok(fields) => Ok(assemble(fields, 0)),
        Err(e) => Err(e),
    }
}

fn read_single(line: &str, seg: &str) -> (r: Result<ItemSection, ParseError>)
    ensures
        section_result_view(r) == (match parse_single(line@, seg@) {
            Ok(fields) => Ok(assemble(fields, 0)),
            Err(e) => Err(e),
        }),
{
    let chars = chars_of(seg);
    match find_first(&chars, Shape::Sold) {
        Some(found) => {
            let order_id = read_order_id(seg, found)?;
            Ok(ItemSection { item: None, order_id, price: 0 })
        },
        None => match find_first(&chars, Shape::Vanilla) {
            Some(found) => {
                let order_id = read_order_id(seg, found)?;
                let (name, is_stattrak) = normalize_name(stretch(seg, found.head));
                Ok(
                    ItemSection {
                        item: Some(
                            Item {
                                order_id,
                                name,
                                kind: None,
                                exterior: None,
                                price: 0,
                                has_sold: false,
                                is_stattrak,
                            },
                        ),
                        order_id,
                        price: 0,
                    },
                )
            },
            None => Err(ParseError::InvalidItemFormat(line.to_owned())),
        },
    }
}

fn read_pair(line: &str, name: &str, rest: &str) -> (r: Result<ItemSection, ParseError>)
    ensures
        section_result_view(r) == (match parse_pair(line@, name@, rest@) {
            Ok(fields) => Ok(assemble(fields, 0)),
            Err(e) => Err(e),
        }),
{
    let chars = chars_of(rest);
    match find_first(&chars, Shape::Item) {
        Some(found) => {
            let grade = stretch(rest, found.grade);
            match Exterior::from_str(grade) {
                Some(exterior) => {
                    let order_id = read_order_id(rest, found)?;
                    let (name, is_stattrak) = normalize_name(name);
                    let kind = trimmed(stretch(rest, found.head)).to_owned();
                    Ok(
                        ItemSection {
                            item: Some(
                                Item {
                                    order_id,
                                    name,
                                    kind: Some(kind),
                                    exterior: Some(exterior),
                                    price: 0,
                                    has_sold: false,
                                    is_stattrak,
                                },
                            ),
                            order_id,
                            price: 0,
                        },
                    )
                },
                None => Err(ParseError::InvalidExterior(grade.to_owned())),
            }
        },
        None => Err(ParseError::InvalidItemFormat(line.to_owned())),
    }
}

fn read_name_line(line: &str) -> (r: Result<ItemSection, ParseError>)
    ensures
        section_result_view(r) == name_line_section(line@),
{
    let chars = chars_of(line);
    let spans = split_segments(&chars);
    if spans.len() == 1 {
        read_single(line, stretch(line, spans[0]))
    } else if spans.len() == 2 {
        read_pair(line, stretch(line, spans[0]), stretch(line, spans[1]))
    } else {
        Err(ParseError::InvalidItemFormat(line.to_owned()))
    }
}

fn read_price_line(line: &str) -> (r: Result<i32, ParseError>)
    ensures
        match r {
            Ok(price) => parse_price_line(line@) == Ok::<i32, ParseErrorView>(price),
            Err(e) => parse_price_line(line@) == Err::<i32, ParseErrorView>(e@),
        },
{
    let chars = chars_of(line);
    match find_first(&chars, Shape::Price) {
        Some(found) => {
            let amount = chars_of(stretch(line, found.digits));
            match parse_decimal(&strip_commas(&amount)) {
                Ok(price) => Ok(price),
                Err(e) => Err(ParseError::InvalidNumber(e)),
            }
        },
        None => Err(ParseError::InvalidItemFormat(line.to_owned())),
    }
}

/// Reads one block: its name line and its price line.
///
/// The result is the section that `parse_section` defines, or the error that
/// it defines: `InvalidItemFormat` with the line that has no shape,
/// `InvalidExterior` with the text that names no exterior, `InvalidNumber`
/// where the digits of the order id or of the price are no `i32`.
pub fn parse_item_section(item_name_line: &str, price_line: &str) -> (r: Result<
    ItemSection,
    ParseError,
>)
    ensures
        section_result_view(r) == parse_section(item_name_line@, price_line@),
        r matches Ok(section) ==> section@.well_formed(),
{
    proof {
        lemma_section_well_formed(item_name_line@, price_line@);
    }
    let section = read_name_line(item_name_line)?;
    let price = read_price_line(price_line)?;
    let item = match section.item {
        Some(item) => Some(
            Item {
                order_id: item.order_id,
                name: item.name,
                kind: item.kind,
                exterior: item.exterior,
                price,
                has_sold: item.has_sold,
                is_stattrak: item.is_stattrak,
            },
        ),
        None => None,
    };
    Ok(ItemSection { item, order_id: section.order_id, price })
}

/// The line that opens a block, once the white space round it is gone.
pub open spec fn block_marker() -> Seq<char> {
    "\u{2605}"@
}

/// Whether `line` opens a block.
pub open spec fn is_marker(line: Seq<char>) -> bool {
    trim(line) == block_marker()
}

/// Why a block of the page gave no section.
#[derive(Debug)]
pub enum Corruption {
    /// The lines end behind the block marker.
    MissingNameLine,
    /// The lines end behind the name line.
    MissingBlankLine,
    /// The lines end behind the blank line.
    MissingPriceLine,
    /// The name line and the price line are not a section.
    Malformed(ParseError),
}

/// What a `Corruption` holds.
pub enum CorruptionView {
    MissingNameLine,
    MissingBlankLine,
    MissingPriceLine,
    Malformed(ParseErrorView),
}

impl View for Corruption {
    type V = CorruptionView;

    open spec fn view(&self) -> CorruptionView {
        match self {
            Corruption::MissingNameLine => CorruptionView::MissingNameLine,
            Corruption::MissingBlankLine => CorruptionView::MissingBlankLine,
            Corruption::MissingPriceLine => CorruptionView::MissingPriceLine,
            Corruption::Malformed(e) => CorruptionView::Malformed(e@),
        }
    }
}

impl CorruptionView {
    /// Why the block was dropped, in words.
    pub open spec fn reason(self) -> Seq<char> {
        match self {
            CorruptionView::MissingNameLine => "no item name line found."@,
            CorruptionView::MissingBlankLine => "no blank line found."@,
            CorruptionView::MissingPriceLine => "no price line found."@,
            CorruptionView::Malformed(e) => e.message(),
        }
    }

    /// The warning that tells that the block was dropped.
    pub open spec fn warning(self) -> Seq<char> {
        "Warn: found corrupted item section, "@ + self.reason()
    }
}

impl Corruption {
    /// The warning that tells that the block was dropped.
    pub fn to_string(&self) -> (r: String)
        ensures
            r@ == self@.warning(),
    {
        let mut r = "Warn: found corrupted item section, ".to_owned();
        match self {
            Corruption::MissingNameLine => r.append("no item name line found."),
            Corruption::MissingBlankLine => r.append("no blank line found."),
            Corruption::MissingPriceLine => r.append("no price line found."),
            Corruption::Malformed(e) => r.append(e.to_string().as_str()),
        }
        r
    }
}

impl DeepView for Corruption {
    type V = CorruptionView;

    open spec fn deep_view(&self) -> CorruptionView {
        self@
    }
}

/// What one block comes to: its section, or the reason why it was dropped.
pub type Outcome = Result<ItemSectionView, CorruptionView>;

/// What the block made of a name line and a price line comes to.
pub open spec fn block_outcome(name_line: Seq<char>, price_line: Seq<char>) -> Outcome {
    match parse_section(name_line, price_line) {
        Ok(section) => Ok(section),
        Err(e) => Err(CorruptionView::Malformed(e)),
    }
}

/// What the blocks of `lines` come to, from line `i` on, in the order of the
/// page. A block is its marker and the three lines behind it: the name line,
/// a line that is passed over, and the price line. Lines between blocks are
/// passed over. A block that the end of the lines cuts short is dropped, and
/// so is a block whose lines are not a section; the search for the next
/// marker goes on behind the price line of a dropped block.
pub open spec fn scan_from(lines: Seq<Seq<char>>, i: int) -> Seq<Outcome>
    decreases lines.len() - i,
{
    if i < 0 || i >= lines.len() {
        Seq::empty()
    } else if !is_marker(lines[i]) {
        scan_from(lines, i + 1)
    } else if i + 1 >= lines.len() {
        seq![Err(CorruptionView::MissingNameLine)]
    } else if i + 2 >= lines.len() {
        seq![Err(CorruptionView::MissingBlankLine)]
    } else if i + 3 >= lines.len() {
        seq![Err(CorruptionView::MissingPriceLine)]
    } else {
        seq![block_outcome(lines[i + 1], lines[i + 3])] + scan_from(lines, i + 4)
    }
}

/// What the blocks of `lines` come to.
pub open spec fn scan(lines: Seq<Seq<char>>) -> Seq<Outcome> {
    scan_from(lines, 0)
}

/// The sections among `outcomes`, in their order.
pub open spec fn accepted(outcomes: Seq<Outcome>) -> Seq<ItemSectionView>
    decreases outcomes.len(),
{
    if outcomes.len() == 0 {
        Seq::empty()
    } else {
        match outcomes.last() {
            Ok(section) => accepted(outcomes.drop_last()).push(section),
            Err(_) => accepted(outcomes.drop_last()),
        }
    }
}

/// The reasons among `outcomes` why blocks were dropped, in their order.
pub open spec fn dropped(outcomes: Seq<Outcome>) -> Seq<CorruptionView>
    decreases outcomes.len(),
{
    if outcomes.len() == 0 {
        Seq::empty()
    } else {
        match outcomes.last() {
            Ok(_) => dropped(outcomes.drop_last()),
            Err(why) => dropped(outcomes.drop_last()).push(why),
        }
    }
}

/// Where the section parser stands between two lines.
#[derive(Debug)]
pub enum ScanState {
    /// Looking for the next block marker.
    Seeking,
    /// Behind a marker: the next line is the name line.
    ExpectName,
    /// Behind the name line: the next line is passed over.
    ExpectBlank { name_line: String },
    /// Behind that line: the next line is the price line.
    ExpectPrice { name_line: String },
}

/// What a `ScanState` holds.
pub enum ScanStateView {
    Seeking,
    ExpectName,
    ExpectBlank { name_line: Seq<char> },
    ExpectPrice { name_line: Seq<char> },
}

impl View for ScanState {
    type V = ScanStateView;

    open spec fn view(&self) -> ScanStateView {
        match self {
            ScanState::Seeking => ScanStateView::Seeking,
            ScanState::ExpectName => ScanStateView::ExpectName,
            ScanState::ExpectBlank { name_line } => ScanStateView::ExpectBlank {
                name_line: name_line@,
            },
            ScanState::ExpectPrice { name_line } => ScanStateView::ExpectPrice {
                name_line: name_line@,
            },
        }
    }
}

impl ScanStateView {
    /// Where the parser stands behind `line`.
    pub open spec fn next(self, line: Seq<char>) -> ScanStateView {
        match self {
            ScanStateView::Seeking => if is_marker(line) {
                ScanStateView::ExpectName
            } else {
                ScanStateView::Seeking
            },
            ScanStateView::ExpectName => ScanStateView::ExpectBlank { name_line: line },
            ScanStateView::ExpectBlank { name_line } => ScanStateView::ExpectPrice { name_line },
            ScanStateView::ExpectPrice { name_line } => ScanStateView::Seeking,
        }
    }

    /// What `line` completes: only a price line completes a block.
    pub open spec fn emits(self, line: Seq<char>) -> Option<Outcome> {
        match self {
            ScanStateView::ExpectPrice { name_line } => Some(block_outcome(name_line, line)),
            _ => None,
        }
    }

    /// What the end of the lines leaves behind: a block cut short is dropped.
    pub open spec fn at_end(self) -> Option<CorruptionView> {
        match self {
            ScanStateView::Seeking => None,
            ScanStateView::ExpectName => Some(CorruptionView::MissingNameLine),
            ScanStateView::ExpectBlank { name_line } => Some(CorruptionView::MissingBlankLine),
            ScanStateView::ExpectPrice { name_line } => Some(CorruptionView::MissingPriceLine),
        }
    }

    /// What a parser in this state, standing before line `i`, will still
    /// find: everything from its open block on.
    pub open spec fn pending(self, lines: Seq<Seq<char>>, i: int) -> Seq<Outcome> {
        match self {
            ScanStateView::Seeking => scan_from(lines, i),
            ScanStateView::ExpectName => scan_from(lines, i - 1),
            ScanStateView::ExpectBlank { name_line } => scan_from(lines, i - 2),
            ScanStateView::ExpectPrice { name_line } => scan_from(lines, i - 3),
        }
    }

    /// The state fits the lines before line `i`: its open block begins with
    /// a marker, and the name line it holds is the block's.
    pub open spec fn fits(self, lines: Seq<Seq<char>>, i: int) -> bool {
        match self {
            ScanStateView::Seeking => 0 <= i <= lines.len(),
            ScanStateView::ExpectName => 1 <= i <= lines.len() && is_marker(lines[i - 1]),
            ScanStateView::ExpectBlank { name_line } => 2 <= i <= lines.len() && is_marker(
                lines[i - 2],
            ) && name_line == lines[i - 1],
            ScanStateView::ExpectPrice { name_line } => 3 <= i <= lines.len() && is_marker(
                lines[i - 3],
            ) && name_line == lines[i - 2],
        }
    }
}

/// What an optional result of the section parser holds.
pub open spec fn emitted_view(r: Option<Result<ItemSection, Corruption>>) -> Option<Outcome> {
    match r {
        Some(Ok(section)) => Some(Ok(section@)),
        Some(Err(why)) => Some(Err(why@)),
        None => None,
    }
}

/// Whether `line` opens a block.
pub fn opens_block(line: &str) -> (r: bool)
    ensures
        r == is_marker(line@),
{
    let t = trimmed(line);
    crate::text::same_text(t, "\u{2605}")
}

/// Takes the section parser over one line.
pub fn scan_line(state: ScanState, line: &str) -> (r: (
    ScanState,
    Option<Result<ItemSection, Corruption>>,
))
    ensures
        r.0@ == state@.next(line@),
        emitted_view(r.1) == state@.emits(line@),
{
    match state {
        ScanState::Seeking => {
            if opens_block(line) {
                (ScanState::ExpectName, None)
            } else {
                (ScanState::Seeking, None)
            }
        },
        ScanState::ExpectName => (ScanState::ExpectBlank { name_line: line.to_owned() }, None),
        ScanState::ExpectBlank { name_line } => (ScanState::ExpectPrice { name_line }, None),
        ScanState::ExpectPrice { name_line } => {
            match parse_item_section(name_line.as_str(), line) {
                Ok(section) => (ScanState::Seeking, Some(Ok(section))),
                Err(e) => (ScanState::Seeking, Some(Err(Corruption::Malformed(e)))),
            }
        },
    }
}

/// Ends the run of the section parser: a block that is still open is dropped.
pub fn scan_end(state: ScanState) -> (r: Option<Corruption>)
    ensures
        r.deep_view() == state@.at_end(),
{
    match state {
        ScanState::Seeking => None,
        ScanState::ExpectName => Some(Corruption::MissingNameLine),
        ScanState::ExpectBlank { name_line } => Some(Corruption::MissingBlankLine),
        ScanState::ExpectPrice { name_line } => Some(Corruption::MissingPriceLine),
    }
}

/// What a run of the section parser found: the sections in the order of the
/// page, and for each block that was dropped the reason, in that order too.
#[derive(Debug)]
pub struct Scan {
    pub items: Vec<ItemSection>,
    pub warnings: Vec<Corruption>,
}

/// Taking the parser over line `i` leaves as much to find as before, less
/// what the line completed.
proof fn lemma_scan_step(lines: Seq<Seq<char>>, i: int, state: ScanStateView)
    requires
        0 <= i < lines.len(),
        state.fits(lines, i),
    ensures
        state.next(lines[i]).fits(lines, i + 1),
        state.pending(lines, i) == (match state.emits(lines[i]) {
            Some(outcome) => seq![outcome] + state.next(lines[i]).pending(lines, i + 1),
            None => state.next(lines[i]).pending(lines, i + 1),
        }),
{
}

/// At the end of the lines, what is left to find is what the open block
/// leaves behind.
proof fn lemma_scan_end(lines: Seq<Seq<char>>, state: ScanStateView)
    requires
        state.fits(lines, lines.len() as int),
    ensures
        state.pending(lines, lines.len() as int) == (match state.at_end() {
            Some(why) => seq![Err(why)],
            None => Seq::<Outcome>::empty(),
        }),
{
}

/// Runs the section parser over the lines of the page.
///
/// Nothing makes the parser fail: a block that is cut short or malformed is
/// dropped with its reason, and the parser goes on to the next marker.
pub fn scan_sections(lines: &[&str]) -> (r: Scan)
    ensures
        r.items.deep_view() == accepted(scan(lines.deep_view())),
        r.warnings.deep_view() == dropped(scan(lines.deep_view())),
{
    let mut items: Vec<ItemSection> = Vec::new();
    let mut warnings: Vec<Corruption> = Vec::new();
    let mut state = ScanState::Seeking;
    let ghost all = lines.deep_view();
    let ghost done: Seq<Outcome> = Seq::empty();
    let mut i: usize = 0;
    while i < lines.len()
        invariant
            i <= lines.len(),
            all == lines.deep_view(),
            state@.fits(all, i as int),
            scan(all) == done + state@.pending(all, i as int),
            items.deep_view() == accepted(done),
            warnings.deep_view() == dropped(done),
        decreases lines.len() - i,
    {
        proof {
            lemma_scan_step(all, i as int, state@);
        }
        let (next, emitted) = scan_line(state, lines[i]);
        state = next;
        match emitted {
            Some(Ok(section)) => {
                proof {
                    let after = done.push(Ok(section@));
                    assert(after.drop_last() =~= done);
                    done = after;
                }
                items.push(section);
            },
            Some(Err(why)) => {
                proof {
                    let after = done.push(Err(why@));
                    assert(after.drop_last() =~= done);
                    done = after;
                }
                warnings.push(why);
            },
            None => {},
        }
        i = i + 1;
    }
    proof {
        lemma_scan_end(all, state@);
    }
    match scan_end(state) {
        Some(why) => {
            proof {
                let after = done.push(Err(why@));
                assert(after.drop_last() =~= done);
                assert(after =~= done + seq![Err(why@)]);
                done = after;
            }
            warnings.push(why);
        },
        None => {},
    }
    Scan { items, warnings }
}

/// The sections of the page, in its order; blocks that are cut short or
/// malformed are left out.
pub fn parse_items(lines: &[&str]) -> (r: Vec<ItemSection>)
    ensures
        r.deep_view() == accepted(scan(lines.deep_view())),
{
    scan_sections(lines).items
}

} // verus!
