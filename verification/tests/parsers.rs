use listing_watch::models::Exterior;
use listing_watch::parsers::{
    opens_block, parse_item_section, parse_items, scan_end, scan_line, scan_sections, Corruption,
    ParseError, ScanState,
};
use listing_watch::text::NumberError;

#[test]
fn full_item_is_read_field_by_field() {
    let section = parse_item_section("AK-47 | Redline (Field-Tested) #123", "price: 15,000円")
        .expect("a full item");
    assert_eq!(section.order_id, 123);
    assert_eq!(section.price, 15000);
    let item = section.item.expect("an item");
    assert_eq!(item.order_id, 123);
    assert_eq!(item.name, "AK-47");
    assert_eq!(item.kind.as_deref(), Some("Redline"));
    assert_eq!(item.exterior, Some(Exterior::FT));
    assert_eq!(item.price, 15000);
    assert!(!item.has_sold);
    assert!(!item.is_stattrak);
}

#[test]
fn stattrak_prefix_is_stripped() {
    let section = parse_item_section("StatTrak AWP | Asiimov (Factory New) #45", "price: 1円")
        .expect("a full item");
    let item = section.item.expect("an item");
    assert!(item.is_stattrak);
    assert_eq!(item.name, "AWP");
    assert_eq!(item.exterior, Some(Exterior::FN));
    assert_eq!(item.kind.as_deref(), Some("Asiimov"));
    assert_eq!(section.order_id, 45);
}

#[test]
fn sold_marker_has_no_item() {
    let section = parse_item_section("(sold) #77", "price: 9,800円").expect("a sold marker");
    assert!(section.item.is_none());
    assert_eq!(section.order_id, 77);
    assert_eq!(section.price, 9800);
}

#[test]
fn page_labels_are_read_too() {
    let section = parse_item_section("(売約済み) #77", "販売価格: 9,800円 ").expect("a sold marker");
    assert!(section.item.is_none());
    assert_eq!(section.order_id, 77);
    assert_eq!(section.price, 9800);
}

#[test]
fn vanilla_item_has_no_kind() {
    let section = parse_item_section("Karambit (Vanilla) #8", "price: 120,000円").expect("vanilla");
    let item = section.item.expect("an item");
    assert_eq!(item.name, "Karambit");
    assert_eq!(item.kind, None);
    assert_eq!(item.exterior, None);
    assert_eq!(item.price, 120000);
    assert_eq!(item.order_id, 8);
}

#[test]
fn three_segments_are_refused() {
    let line = "a | b | c (Factory New) #1";
    match parse_item_section(line, "price: 1") {
        Err(ParseError::InvalidItemFormat(found)) => assert_eq!(found, line),
        other => panic!("unexpected: {:?}", other),
    }
}

#[test]
fn unknown_exterior_is_named() {
    match parse_item_section("AK-47 | Redline (Shiny) #1", "price: 1") {
        Err(ParseError::InvalidExterior(found)) => assert_eq!(found, "Shiny"),
        other => panic!("unexpected: {:?}", other),
    }
}

#[test]
fn numbers_that_do_not_fit_are_refused() {
    match parse_item_section("AK-47 | Redline (FT) #99999999999", "price: 1") {
        Err(ParseError::InvalidNumber(NumberError::PosOverflow)) => {}
        other => panic!("unexpected: {:?}", other),
    }
    match parse_item_section("AK-47 | Redline (FT) #1", "price: ,,") {
        Err(ParseError::InvalidNumber(NumberError::Empty)) => {}
        other => panic!("unexpected: {:?}", other),
    }
}

#[test]
fn block_cut_short_is_dropped() {
    let scan = scan_sections(&["\u{2605}", "AK-47 | Redline (Field-Tested) #123"]);
    assert!(scan.items.is_empty());
    assert_eq!(scan.warnings.len(), 1);
    assert!(matches!(scan.warnings[0], Corruption::MissingBlankLine));
}

#[test]
fn scan_resumes_behind_a_malformed_block() {
    let lines = [
        "header",
        " \u{2605} ",
        "not an item",
        "",
        "price: 1円",
        "\u{2605}",
        "AK-47 | Redline (Field-Tested) #123",
        "",
        "price: 15,000円",
    ];
    let items = parse_items(&lines);
    assert_eq!(items.len(), 1);
    assert_eq!(items[0].order_id, 123);
    let scan = scan_sections(&lines);
    assert_eq!(scan.warnings.len(), 1);
    assert!(matches!(scan.warnings[0], Corruption::Malformed(ParseError::InvalidItemFormat(_))));
}

#[test]
fn price_line_without_price_is_refused() {
    match parse_item_section("AK-47 | Redline (Field-Tested) #123", "15,000円") {
        Err(ParseError::InvalidItemFormat(found)) => assert_eq!(found, "15,000円"),
        other => panic!("unexpected: {:?}", other),
    }
    match parse_item_section("AK-47 | Redline (Field-Tested) #123", "") {
        Err(ParseError::InvalidItemFormat(found)) => assert_eq!(found, ""),
        other => panic!("unexpected: {:?}", other),
    }
}

#[test]
fn name_line_is_read_before_price_line() {
    match parse_item_section("nothing here", "nothing there") {
        Err(ParseError::InvalidItemFormat(found)) => assert_eq!(found, "nothing here"),
        other => panic!("unexpected: {:?}", other),
    }
    match parse_item_section("AK-47 | Redline (Shiny) #99999999999", "price: ,") {
        Err(ParseError::InvalidExterior(found)) => assert_eq!(found, "Shiny"),
        other => panic!("unexpected: {:?}", other),
    }
}

#[test]
fn sold_marker_comes_before_vanilla() {
    let section =
        parse_item_section("Karambit (Vanilla) #8 (sold) #9", "price: 1").expect("a sold marker");
    assert!(section.item.is_none());
    assert_eq!(section.order_id, 9);
}

#[test]
fn sold_marker_in_a_line_of_two_segments_is_no_sold_marker() {
    match parse_item_section("(sold) #5 | x", "price: 1") {
        Err(ParseError::InvalidItemFormat(found)) => assert_eq!(found, "(sold) #5 | x"),
        other => panic!("unexpected: {:?}", other),
    }
    let section =
        parse_item_section("(sold) #5 | Redline (Factory New) #6", "price: 1").expect("a full item");
    let item = section.item.expect("an item");
    assert_eq!(item.name, "(sold) #5");
    assert_eq!(section.order_id, 6);
}

#[test]
fn short_code_names_the_exterior_too() {
    for (code, exterior) in [
        ("FN", Exterior::FN),
        ("MW", Exterior::MW),
        ("FT", Exterior::FT),
        ("WW", Exterior::WW),
        ("BS", Exterior::BS),
    ] {
        let line = format!("AK-47 | Redline ({}) #1", code);
        let section = parse_item_section(&line, "price: 1").expect("a full item");
        assert_eq!(section.item.expect("an item").exterior, Some(exterior));
    }
}

#[test]
fn every_label_names_its_exterior() {
    for exterior in [Exterior::FN, Exterior::MW, Exterior::FT, Exterior::WW, Exterior::BS] {
        let line = format!("AK-47 | Redline ({}) #1", exterior.as_str());
        let section = parse_item_section(&line, "price: 1").expect("a full item");
        assert_eq!(section.item.expect("an item").exterior, Some(exterior));
    }
}

#[test]
fn white_space_round_name_and_kind_is_trimmed() {
    let section = parse_item_section(
        "  \tStatTrak  M4A4  | \u{3000} Howl  (Minimal Wear) #31 trailing",
        "  sale price: 1,234,567円  ",
    )
    .expect("a full item");
    let item = section.item.expect("an item");
    assert_eq!(item.name, " M4A4");
    assert!(item.is_stattrak);
    assert_eq!(item.kind.as_deref(), Some("Howl"));
    assert_eq!(item.exterior, Some(Exterior::MW));
    assert_eq!(section.order_id, 31);
    assert_eq!(section.price, 1234567);
}

#[test]
fn stattrak_needs_its_space() {
    let section =
        parse_item_section("StatTrakAWP | Asiimov (Factory New) #45", "price: 1").expect("an item");
    let item = section.item.expect("an item");
    assert!(!item.is_stattrak);
    assert_eq!(item.name, "StatTrakAWP");
}

#[test]
fn vanilla_stattrak_is_flagged() {
    let section =
        parse_item_section("StatTrak Karambit (Vanilla) #8", "price: 1").expect("vanilla");
    let item = section.item.expect("an item");
    assert!(item.is_stattrak);
    assert_eq!(item.name, "Karambit");
    assert_eq!(item.kind, None);
}

#[test]
fn largest_numbers_are_read() {
    let section = parse_item_section("(sold) #2147483647", "price: 2,147,483,647").expect("sold");
    assert_eq!(section.order_id, i32::MAX);
    assert_eq!(section.price, i32::MAX);
    match parse_item_section("(sold) #1", "price: 2,147,483,648") {
        Err(ParseError::InvalidNumber(NumberError::PosOverflow)) => {}
        other => panic!("unexpected: {:?}", other),
    }
}

#[test]
fn errors_say_what_is_wrong() {
    assert_eq!(
        ParseError::InvalidItemFormat("x".to_string()).to_string(),
        "invalid item format (expected `name | kind (exterior) #id` or `name (Vanilla) #id` or `(sold) #id`, found `x`)"
    );
    assert_eq!(
        ParseError::InvalidExterior("Shiny".to_string()).to_string(),
        "invalid exterior (expected `FN`, `MW`, `FT`, `WW` or `BS` found `Shiny`)"
    );
    assert_eq!(
        ParseError::InvalidNumber(NumberError::PosOverflow).to_string(),
        "number too large to fit in target type"
    );
    assert_eq!(
        ParseError::InvalidNumber(NumberError::Empty).to_string(),
        "cannot parse integer from empty string"
    );
}

#[test]
fn warnings_say_why_a_block_was_dropped() {
    assert_eq!(
        Corruption::MissingNameLine.to_string(),
        "Warn: found corrupted item section, no item name line found."
    );
    assert_eq!(
        Corruption::MissingBlankLine.to_string(),
        "Warn: found corrupted item section, no blank line found."
    );
    assert_eq!(
        Corruption::MissingPriceLine.to_string(),
        "Warn: found corrupted item section, no price line found."
    );
    assert_eq!(
        Corruption::Malformed(ParseError::InvalidExterior("Shiny".to_string())).to_string(),
        "Warn: found corrupted item section, invalid exterior (expected `FN`, `MW`, `FT`, `WW` or `BS` found `Shiny`)"
    );
}

#[test]
fn lines_that_end_in_a_block_drop_it() {
    let scan = scan_sections(&["\u{2605}"]);
    assert!(scan.items.is_empty());
    assert!(matches!(scan.warnings[..], [Corruption::MissingNameLine]));
    let scan = scan_sections(&["\u{2605}", "name", ""]);
    assert!(scan.items.is_empty());
    assert!(matches!(scan.warnings[..], [Corruption::MissingPriceLine]));
    let scan = scan_sections(&[]);
    assert!(scan.items.is_empty());
    assert!(scan.warnings.is_empty());
    let scan = scan_sections(&["no marker", "at all"]);
    assert!(scan.items.is_empty());
    assert!(scan.warnings.is_empty());
}

#[test]
fn marker_inside_a_block_is_a_line_of_the_block() {
    let lines = [
        "\u{2605}",
        "AK-47 | Redline (Field-Tested) #1",
        "\u{2605}",
        "price: 10円",
        "\u{2605}",
        "\u{2605}",
        "AWP | Asiimov (Factory New) #2",
        "price: 20円",
        "\u{2605}",
        "Karambit (Vanilla) #3",
        "",
        "price: 30円",
    ];
    let scan = scan_sections(&lines);
    let ids: Vec<i32> = scan.items.iter().map(|section| section.order_id).collect();
    assert_eq!(ids, vec![1, 3]);
    assert_eq!(scan.warnings.len(), 1);
    assert!(matches!(scan.warnings[0], Corruption::Malformed(ParseError::InvalidItemFormat(_))));
}

#[test]
fn sections_keep_the_order_of_the_page() {
    let lines = [
        "\u{2605}", "B | K (Well-Worn) #20", "", "price: 2",
        "between",
        "\u{2605}", "(sold) #10", "", "price: 1",
        "\u{2605}", "A (Vanilla) #30", "", "price: 3",
    ];
    let items = parse_items(&lines);
    let ids: Vec<i32> = items.iter().map(|section| section.order_id).collect();
    assert_eq!(ids, vec![20, 10, 30]);
    assert!(items[1].item.is_none());
    assert!(items[0].item.is_some() && items[2].item.is_some());
}

#[test]
fn parser_can_be_taken_over_the_lines_one_by_one() {
    let state = ScanState::Seeking;
    let (state, out) = scan_line(state, "header");
    assert!(matches!(state, ScanState::Seeking) && out.is_none());
    let (state, out) = scan_line(state, "  \u{2605}\n");
    assert!(matches!(state, ScanState::ExpectName) && out.is_none());
    let (state, out) = scan_line(state, "(sold) #4");
    assert!(matches!(&state, ScanState::ExpectBlank { name_line } if name_line == "(sold) #4"));
    assert!(out.is_none());
    let (state, out) = scan_line(state, "anything");
    assert!(matches!(&state, ScanState::ExpectPrice { name_line } if name_line == "(sold) #4"));
    assert!(out.is_none());
    let (state, out) = scan_line(state, "price: 40円");
    assert!(matches!(state, ScanState::Seeking));
    match out {
        Some(Ok(section)) => {
            assert_eq!(section.order_id, 4);
            assert_eq!(section.price, 40);
        }
        other => panic!("unexpected: {:?}", other),
    }
    assert!(scan_end(state).is_none());
    assert!(matches!(scan_end(ScanState::ExpectName), Some(Corruption::MissingNameLine)));
    assert!(matches!(
        scan_end(ScanState::ExpectBlank { name_line: String::new() }),
        Some(Corruption::MissingBlankLine)
    ));
    assert!(matches!(
        scan_end(ScanState::ExpectPrice { name_line: String::new() }),
        Some(Corruption::MissingPriceLine)
    ));
    let (state, out) = scan_line(ScanState::ExpectPrice { name_line: "bad".to_string() }, "price: 1");
    assert!(matches!(state, ScanState::Seeking));
    assert!(matches!(out, Some(Err(Corruption::Malformed(ParseError::InvalidItemFormat(_))))));
}

#[test]
fn block_marker_is_told_from_other_lines() {
    assert!(opens_block("\u{2605}"));
    assert!(opens_block(" \u{3000}\u{2605}\t\r\n"));
    assert!(!opens_block(""));
    assert!(!opens_block("\u{2605}\u{2605}"));
    assert!(!opens_block("\u{2606}"));
    assert!(!opens_block("x \u{2605}"));
}
