//! The listing as it is persisted, and its exterior grade.

use crate::text::same_text;
use vstd::prelude::*;
use vstd::string::*;

verus! {

/// The exterior grade of an item that has a kind.
#[derive(Clone, Copy, Debug, PartialEq, Eq, Structural)]
pub enum Exterior {
    FN,
    MW,
    FT,
    WW,
    BS,
}

impl Exterior {
    /// The grade as the page prints it.
    pub open spec fn label(self) -> Seq<char> {
        match self {
            Exterior::FN => "Factory New"@,
            Exterior::MW => "Minimal Wear"@,
            Exterior::FT => "Field-Tested"@,
            Exterior::WW => "Well-Worn"@,
            Exterior::BS => "Battle-Scarred"@,
        }
    }

    /// The grade's short code.
    pub open spec fn code(self) -> Seq<char> {
        match self {
            Exterior::FN => "FN"@,
            Exterior::MW => "MW"@,
            Exterior::FT => "FT"@,
            Exterior::WW => "WW"@,
            Exterior::BS => "BS"@,
        }
    }

    /// `s` names the grade, by its short code or by its label.
    pub open spec fn named_by(self, s: Seq<char>) -> bool {
        s == self.code() || s == self.label()
    }

    /// The grade that `s` names, if it names one.
    pub open spec fn parse(s: Seq<char>) -> Option<Exterior> {
        if Exterior::FN.named_by(s) {
            Some(Exterior::FN)
        } else if Exterior::MW.named_by(s) {
            Some(Exterior::MW)
        } else if Exterior::FT.named_by(s) {
            Some(Exterior::FT)
        } else if Exterior::WW.named_by(s) {
            Some(Exterior::WW)
        } else if Exterior::BS.named_by(s) {
            Some(Exterior::BS)
        } else {
            None
        }
    }

    /// The grade as the page prints it.
    pub fn as_str(&self) -> (r: &'static str)
        ensures
            r@ == self.label(),
    {
        match self {
            Exterior::FN => "Factory New",
            Exterior::MW => "Minimal Wear",
            Exterior::FT => "Field-Tested",
            Exterior::WW => "Well-Worn",
            Exterior::BS => "Battle-Scarred",
        }
    }

    /// The grade's short code.
    pub fn short_code(&self) -> (r: &'static str)
        ensures
            r@ == self.code(),
    {
        match self {
            Exterior::FN => "FN",
            Exterior::MW => "MW",
            Exterior::FT => "FT",
            Exterior::WW => "WW",
            Exterior::BS => "BS",
        }
    }

    /// The grade as the page prints it, as an owned string.
    pub fn to_string(&self) -> (r: String)
        ensures
            r@ == self.label(),
    {
        self.as_str().to_owned()
    }

    /// Reads a grade from its short code or from its label; any other text
    /// names no grade.
    pub fn from_str(s: &str) -> (r: Option<Exterior>)
        ensures
            r == Exterior::parse(s@),
    {
        if same_text(s, "FN") || same_text(s, "Factory New") {
            Some(Exterior::FN)
        } else if same_text(s, "MW") || same_text(s, "Minimal Wear") {
            Some(Exterior::MW)
        } else if same_text(s, "FT") || same_text(s, "Field-Tested") {
            Some(Exterior::FT)
        } else if same_text(s, "WW") || same_text(s, "Well-Worn") {
            Some(Exterior::WW)
        } else if same_text(s, "BS") || same_text(s, "Battle-Scarred") {
            Some(Exterior::BS)
        } else {
            None
        }
    }
}

/// No two grades share a code or a label, so the text of a grade is read
/// back as that grade: nothing is lost on the way through the five grades.
pub proof fn lemma_exterior_round_trip(e: Exterior)
    ensures
        Exterior::parse(e.label()) == Some(e),
        Exterior::parse(e.code()) == Some(e),
{
    reveal_strlit("FN");
    reveal_strlit("MW");
    reveal_strlit("FT");
    reveal_strlit("WW");
    reveal_strlit("BS");
    reveal_strlit("Factory New");
    reveal_strlit("Minimal Wear");
    reveal_strlit("Field-Tested");
    reveal_strlit("Well-Worn");
    reveal_strlit("Battle-Scarred");
    assert("Factory New"@.len() == 11 && "Minimal Wear"@.len() == 12 && "Field-Tested"@.len()
        == 12 && "Well-Worn"@.len() == 9 && "Battle-Scarred"@.len() == 14);
    assert("FN"@[0] == 'F' && "FN"@[1] == 'N' && "MW"@[0] == 'M' && "FT"@[0] == 'F' && "FT"@[1]
        == 'T' && "WW"@[0] == 'W' && "BS"@[0] == 'B');
    assert("Minimal Wear"@[0] == 'M' && "Field-Tested"@[0] == 'F');
}

/// One item for sale, as the record keeps it. An item without a kind is a
/// vanilla item, and has no exterior either.
#[derive(Debug)]
pub struct Item {
    pub order_id: i32,
    pub name: String,
    pub kind: Option<String>,
    pub exterior: Option<Exterior>,
    pub price: i32,
    pub has_sold: bool,
    pub is_stattrak: bool,
}

/// What an `Item` holds.
pub struct ItemView {
    pub order_id: i32,
    pub name: Seq<char>,
    pub kind: Option<Seq<char>>,
    pub exterior: Option<Exterior>,
    pub price: i32,
    pub has_sold: bool,
    pub is_stattrak: bool,
}

impl View for Item {
    type V = ItemView;

    open spec fn view(&self) -> ItemView {
        ItemView {
            order_id: self.order_id,
            name: self.name@,
            kind: self.kind.deep_view(),
            exterior: self.exterior,
            price: self.price,
            has_sold: self.has_sold,
            is_stattrak: self.is_stattrak,
        }
    }
}

impl DeepView for Item {
    type V = ItemView;

    open spec fn deep_view(&self) -> ItemView {
        self@
    }
}

impl ItemView {
    /// An item has an exterior exactly when it has a kind.
    pub open spec fn well_formed(self) -> bool {
        self.exterior.is_some() == self.kind.is_some()
    }

    /// How a notification names the item: its name and its kind, or
    /// `Vanilla` where it has none.
    pub open spec fn display(self) -> Seq<char> {
        match self.kind {
            Some(kind) => self.name + " | "@ + kind,
            None => self.name + " | Vanilla"@,
        }
    }

    /// The item's name and kind, with the exterior behind the kind.
    pub open spec fn display_with_exterior(self) -> Seq<char> {
        match self.kind {
            Some(kind) => self.name + " | "@ + kind + " ("@ + self.exterior.unwrap().label()
                + ")"@,
            None => self.name + " | Vanilla"@,
        }
    }
}

impl Clone for Item {
    fn clone(&self) -> (r: Item)
        ensures
            r@ == self@,
    {
        let kind = match &self.kind {
            Some(k) => Some(k.clone()),
            None => None,
        };
        Item {
            order_id: self.order_id,
            name: self.name.clone(),
            kind,
            exterior: self.exterior,
            price: self.price,
            has_sold: self.has_sold,
            is_stattrak: self.is_stattrak,
        }
    }
}

impl Item {
    /// An item has an exterior exactly when it has a kind.
    pub open spec fn well_formed(&self) -> bool {
        self@.well_formed()
    }

    /// Whether two items hold the same values.
    pub fn same_as(&self, other: &Item) -> (r: bool)
        ensures
            r == (self@ == other@),
    {
        let same_name = self.name == other.name;
        let same_kind = match (&self.kind, &other.kind) {
            (Some(a), Some(b)) => *a == *b,
            (None, None) => true,
            _ => false,
        };
        let same_exterior = match (self.exterior, other.exterior) {
            (Some(a), Some(b)) => a == b,
            (None, None) => true,
            _ => false,
        };
        self.order_id == other.order_id && same_name && same_kind && same_exterior
            && self.price == other.price && self.has_sold == other.has_sold && self.is_stattrak
            == other.is_stattrak
    }

    /// How a notification names the item.
    pub fn to_string(&self) -> (r: String)
        ensures
            r@ == self@.display(),
    {
        let mut r = self.name.clone();
        match &self.kind {
            Some(kind) => {
                r.append(" | ");
                r.append(kind.as_str());
            },
            None => {
                r.append(" | Vanilla");
            },
        }
        r
    }

    /// The item's name and kind, with the exterior behind the kind.
    pub fn to_string_with_exterior(&self) -> (r: String)
        requires
            self.well_formed(),
        ensures
            r@ == self@.display_with_exterior(),
    {
        let mut r = self.name.clone();
        match (&self.kind, &self.exterior) {
            (Some(kind), Some(exterior)) => {
                r.append(" | ");
                r.append(kind.as_str());
                r.append(" (");
                r.append(exterior.as_str());
                r.append(")");
            },
            _ => {
                r.append(" | Vanilla");
            },
        }
        r
    }
}

} // verus!
