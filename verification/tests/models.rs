use listing_watch::models::{Exterior, Item};

fn item(kind: Option<&str>, exterior: Option<Exterior>) -> Item {
    Item {
        order_id: 123,
        name: "AK-47".to_string(),
        kind: kind.map(|k| k.to_string()),
        exterior,
        price: 15000,
        has_sold: false,
        is_stattrak: false,
    }
}

#[test]
fn exterior_is_read_from_label_and_code() {
    let all = [
        (Exterior::FN, "FN", "Factory New"),
        (Exterior::MW, "MW", "Minimal Wear"),
        (Exterior::FT, "FT", "Field-Tested"),
        (Exterior::WW, "WW", "Well-Worn"),
        (Exterior::BS, "BS", "Battle-Scarred"),
    ];
    for (exterior, code, label) in all {
        assert_eq!(Exterior::from_str(code), Some(exterior));
        assert_eq!(Exterior::from_str(label), Some(exterior));
        assert_eq!(exterior.short_code(), code);
        assert_eq!(exterior.as_str(), label);
        assert_eq!(exterior.to_string(), label);
        assert_eq!(Exterior::from_str(exterior.as_str()), Some(exterior));
        assert_eq!(Exterior::from_str(exterior.short_code()), Some(exterior));
    }
}

#[test]
fn other_text_names_no_exterior() {
    for s in ["", "fn", "Factory  New", "Factory New ", "Field Tested", "Vanilla", "F", "FNX"] {
        assert_eq!(Exterior::from_str(s), None, "{:?}", s);
    }
}

#[test]
fn item_is_named_by_name_and_kind() {
    assert_eq!(item(Some("Redline"), Some(Exterior::FT)).to_string(), "AK-47 | Redline");
    assert_eq!(item(None, None).to_string(), "AK-47 | Vanilla");
}

#[test]
fn item_is_named_with_its_exterior() {
    assert_eq!(
        item(Some("Redline"), Some(Exterior::FT)).to_string_with_exterior(),
        "AK-47 | Redline (Field-Tested)"
    );
    assert_eq!(item(None, None).to_string_with_exterior(), "AK-47 | Vanilla");
}

#[test]
fn clone_keeps_every_field() {
    let source = Item {
        order_id: 7,
        name: "AWP".to_string(),
        kind: Some("Asiimov".to_string()),
        exterior: Some(Exterior::BS),
        price: 1,
        has_sold: true,
        is_stattrak: true,
    };
    let copy = source.clone();
    assert!(copy.same_as(&source));
    assert_eq!(copy.order_id, 7);
    assert_eq!(copy.name, "AWP");
    assert_eq!(copy.kind.as_deref(), Some("Asiimov"));
    assert_eq!(copy.exterior, Some(Exterior::BS));
    assert_eq!(copy.price, 1);
    assert!(copy.has_sold);
    assert!(copy.is_stattrak);
}

#[test]
fn same_as_tells_every_field_apart() {
    let base = item(Some("Redline"), Some(Exterior::FT));
    assert!(base.same_as(&item(Some("Redline"), Some(Exterior::FT))));
    assert!(!base.same_as(&item(Some("Redline"), Some(Exterior::FN))));
    assert!(!base.same_as(&item(Some("Redlin"), Some(Exterior::FT))));
    assert!(!base.same_as(&item(None, Some(Exterior::FT))));
    assert!(!base.same_as(&item(Some("Redline"), None)));
    let mut other = item(Some("Redline"), Some(Exterior::FT));
    other.order_id = 124;
    assert!(!base.same_as(&other));
    let mut other = item(Some("Redline"), Some(Exterior::FT));
    other.name = "AK".to_string();
    assert!(!base.same_as(&other));
    let mut other = item(Some("Redline"), Some(Exterior::FT));
    other.price = 1;
    assert!(!base.same_as(&other));
    let mut other = item(Some("Redline"), Some(Exterior::FT));
    other.has_sold = true;
    assert!(!base.same_as(&other));
    let mut other = item(Some("Redline"), Some(Exterior::FT));
    other.is_stattrak = true;
    assert!(!base.same_as(&other));
}
