use listing_watch::grammar::{find_first, Found, Shape};
use listing_watch::text::Span;
use regex::Regex;

fn chars(s: &str) -> Vec<char> {
    s.chars().collect()
}

fn cut(v: &[char], span: Span) -> String {
    v[span.start..span.end].iter().collect()
}

fn found(s: &str, shape: Shape) -> Option<(String, String, String)> {
    let v = chars(s);
    let f: Found = find_first(&v, shape)?;
    Some((cut(&v, f.head), cut(&v, f.grade), cut(&v, f.digits)))
}

fn group(caps: &regex::Captures, name: &str) -> String {
    caps.name(name).map(|m| m.as_str().to_string()).unwrap_or_default()
}

fn expected(pattern: &Regex, s: &str) -> Option<(String, String, String)> {
    let caps = pattern.captures(s)?;
    Some((group(&caps, "head"), group(&caps, "grade"), group(&caps, "digits")))
}

fn patterns() -> Vec<(Shape, Regex)> {
    vec![
        (Shape::Sold, Regex::new(r"(?:\(sold\)|\(売約済み\)) #(?P<digits>[0-9]+)").unwrap()),
        (
            Shape::Vanilla,
            Regex::new(r"(?P<head>[A-Za-z ]+) \(Vanilla\) #(?P<digits>[0-9]+)").unwrap(),
        ),
        (
            Shape::Item,
            Regex::new(r"(?P<head>[A-Za-z ]+) \((?P<grade>[-A-Za-z ]+)\) #(?P<digits>[0-9]+)")
                .unwrap(),
        ),
        (Shape::Price, Regex::new(r"(?:price|販売価格): (?P<digits>[0-9,]+)").unwrap()),
    ]
}

#[test]
fn shapes_are_found_in_typical_lines() {
    assert_eq!(
        found("Redline (Field-Tested) #123", Shape::Item),
        Some(("Redline".to_string(), "Field-Tested".to_string(), "123".to_string()))
    );
    assert_eq!(
        found("Karambit (Vanilla) #8", Shape::Vanilla),
        Some(("Karambit".to_string(), String::new(), "8".to_string()))
    );
    assert_eq!(
        found("(sold) #77", Shape::Sold),
        Some((String::new(), String::new(), "77".to_string()))
    );
    assert_eq!(
        found("price: 15,000円", Shape::Price),
        Some((String::new(), String::new(), "15,000".to_string()))
    );
    assert_eq!(found("price:15,000", Shape::Price), None);
    assert_eq!(found("Redline (Field-Tested) #", Shape::Item), None);
    assert_eq!(found("(Field-Tested) #1", Shape::Item), None);
}

#[test]
fn leftmost_match_wins() {
    assert_eq!(
        found("x (a) #? Redline  (FT) #12 Asiimov (FN) #3", Shape::Item),
        Some((" Redline ".to_string(), "FT".to_string(), "12".to_string()))
    );
    assert_eq!(
        found("M4A4 Howl (Vanilla) #5abc", Shape::Vanilla),
        Some((" Howl".to_string(), String::new(), "5".to_string()))
    );
    assert_eq!(
        found("no price: here, price: 1,2", Shape::Price),
        Some((String::new(), String::new(), "1,2".to_string()))
    );
}

#[test]
fn shapes_agree_with_their_patterns_on_samples() {
    let samples = [
        "",
        " ",
        "(sold)",
        "(sold) #",
        "(sold) #1",
        " (sold) #12 ",
        "(sold) #12(sold) #13",
        "(売約済み) #9",
        "(売約済) #9",
        "a (Vanilla) #1",
        " (Vanilla) #1",
        "  (Vanilla) #1",
        "a(Vanilla) #1",
        "a  (Vanilla) #1",
        "a (Vanilla)#1",
        "A B (Vanilla) #10 C (Vanilla) #11",
        "k (g) #1",
        "k (g)#1",
        "k () #1",
        "k (g-h i) #22x",
        "k (g_h) #22",
        "4k (g) #3",
        "k ( (g) #3",
        "k (g) (h) #3",
        "price: ",
        "price: ,",
        "price: 1",
        "price:  1",
        "Price: 1",
        "price: 1,000,000円 ",
        "販売価格: 2,500円",
        "xprice: 12price: 13",
    ];
    for (shape, pattern) in patterns() {
        for s in samples {
            assert_eq!(found(s, shape), expected(&pattern, s), "{:?} in {:?}", shape, s);
        }
    }
}

#[test]
fn shapes_agree_with_their_patterns_on_generated_lines() {
    let alphabet: Vec<char> = "aZ ()#-,0 9:|售Vanilla(sold) #price: ".chars().collect();
    let pieces = [
        "(sold) #",
        "(Vanilla) #",
        "price: ",
        "販売価格: ",
        "(売約済み) #",
        ") #",
        " (",
        "12",
        "ab ",
        "Field-Tested",
    ];
    let mut state: u64 = 0x2545F4914F6CDD1D;
    let mut next = move |bound: usize| -> usize {
        state ^= state << 13;
        state ^= state >> 7;
        state ^= state << 17;
        (state % bound as u64) as usize
    };
    let patterns = patterns();
    for _ in 0..4000 {
        let mut line = String::new();
        let parts = 1 + next(6);
        for _ in 0..parts {
            if next(2) == 0 {
                line.push_str(pieces[next(pieces.len())]);
            } else {
                let n = next(4);
                for _ in 0..n {
                    line.push(alphabet[next(alphabet.len())]);
                }
            }
        }
        for (shape, pattern) in patterns.iter() {
            assert_eq!(found(&line, *shape), expected(pattern, &line), "{:?} in {:?}", shape, line);
        }
    }
}
