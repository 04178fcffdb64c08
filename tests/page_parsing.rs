use ferrumena::error::FerrumenaError;
use ferrumena::markup::{
    build_image_item, extract_total_from_first_page, lookup_representation, parse_card,
    parse_cards, parse_representations, parse_search_page, pick_view_url, total_from_info_texts,
};

fn reps(pairs: &[(&str, &str)]) -> Vec<(String, String)> {
    pairs
        .iter()
        .map(|(k, v)| (k.to_string(), v.to_string()))
        .collect()
}

#[test]
fn view_url_prefers_full() {
    let r = reps(&[("tall", "t.png"), ("full", "f.png"), ("thumb", "s.png")]);
    assert_eq!(pick_view_url(&r), "f.png");
}

#[test]
fn view_url_falls_back_to_tall() {
    let r = reps(&[("thumb", "s.png"), ("tall", "t.png")]);
    assert_eq!(pick_view_url(&r), "t.png");
}

#[test]
fn view_url_takes_some_value_otherwise() {
    let r = reps(&[("thumb", "s.png"), ("small", "m.png")]);
    let v = pick_view_url(&r);
    assert!(!v.is_empty());
    assert!(r.iter().any(|(_, u)| *u == v));
}

#[test]
fn empty_representations_give_empty_url_and_no_format() {
    let r: Vec<(String, String)> = Vec::new();
    assert_eq!(pick_view_url(&r), "");
    assert!(matches!(build_image_item(1, r), Err(FerrumenaError::Logic(_))));
}

#[test]
fn lookup_representation_finds_named_url() {
    let r = reps(&[("thumb", "s.png"), ("full", "f.png")]);
    assert_eq!(lookup_representation(&r, "full"), Some("f.png".to_string()));
    assert_eq!(lookup_representation(&r, "tall"), None);
}

#[test]
fn parse_representations_decodes_escaped_json() {
    let pairs = parse_representations("{&quot;full&quot;:&quot;http://x/1.png&quot;}", 1).unwrap();
    assert_eq!(pairs, reps(&[("full", "http://x/1.png")]));
}

#[test]
fn parse_representations_sorts_keys() {
    let pairs = parse_representations("{\"tall\":\"b\",\"full\":\"a\"}", 1).unwrap();
    assert_eq!(pairs, reps(&[("full", "a"), ("tall", "b")]));
}

#[test]
fn parse_representations_rejects_bad_json() {
    assert!(matches!(parse_representations("{full:", 9), Err(FerrumenaError::Logic(_))));
    assert!(matches!(parse_representations("{\"full\":3}", 9), Err(FerrumenaError::Logic(_))));
}

#[test]
fn build_image_item_derives_format() {
    let item = build_image_item(42, reps(&[("full", "http://x/1.png")])).unwrap();
    assert_eq!(item.id, 42);
    assert_eq!(item.view_url, "http://x/1.png");
    assert_eq!(item.format, "png");
}

#[test]
fn build_image_item_rejects_url_without_dot() {
    let r = build_image_item(42, reps(&[("full", "http://x/image")]));
    assert!(matches!(r, Err(FerrumenaError::Logic(_))));
}

#[test]
fn parse_card_reports_each_fault() {
    let uris = Some("{\"full\":\"http://x/1.png\"}".to_string());
    match parse_card(&None, &uris) {
        Err(FerrumenaError::DomParse { selector, .. }) => assert_eq!(selector, "data-image-id"),
        other => panic!("unexpected {:?}", other),
    }
    assert!(matches!(parse_card(&Some("abc".to_string()), &uris), Err(FerrumenaError::Logic(_))));
    assert!(matches!(parse_card(&Some("0".to_string()), &uris), Err(FerrumenaError::Logic(_))));
    match parse_card(&Some("42".to_string()), &None) {
        Err(FerrumenaError::DomParse { selector, .. }) => assert_eq!(selector, "data-uris"),
        other => panic!("unexpected {:?}", other),
    }
    let item = parse_card(&Some("42".to_string()), &uris).unwrap();
    assert_eq!(item.id, 42);
}

#[test]
fn parse_cards_is_all_or_nothing() {
    let good = (Some("1".to_string()), Some("{\"full\":\"a.jpg\"}".to_string()));
    let bad = (Some("2".to_string()), Some("{".to_string()));
    let ok = parse_cards(&vec![good.clone(), good.clone()]).unwrap();
    assert_eq!(ok.len(), 2);
    assert!(parse_cards(&vec![good, bad]).is_err());
}

#[test]
fn card_with_id_and_uris_yields_one_record() {
    let html = "<html><body><div class=\"image-container\" data-image-id=\"42\" \
                data-uris=\"{&quot;full&quot;:&quot;http://x/1.png&quot;}\"></div></body></html>";
    let page = parse_search_page(html, 2).unwrap();
    assert_eq!(page.total, None);
    assert_eq!(page.images.len(), 1);
    let item = &page.images[0];
    assert_eq!(item.id, 42);
    assert_eq!(item.view_url, "http://x/1.png");
    assert_eq!(item.format, "png");
}

#[test]
fn page_info_gives_total() {
    let html = "<html><body><span class=\"page__info\">Showing results <strong>1 - 50</strong> \
                of <strong>1585080</strong> total</span></body></html>";
    assert_eq!(extract_total_from_first_page(html).unwrap(), 1585080);
}

#[test]
fn page_info_with_one_node_is_markup_error() {
    let html = "<html><body><span class=\"page__info\"><strong>1 - 50</strong></span></body></html>";
    assert!(matches!(
        extract_total_from_first_page(html),
        Err(FerrumenaError::DomParse { .. })
    ));
}

#[test]
fn total_from_info_texts_reads_second_text() {
    let texts = vec!["1 - 50".to_string(), " 1585080 ".to_string()];
    assert_eq!(total_from_info_texts(&texts).unwrap(), 1585080);
    let bad = vec!["1 - 50".to_string(), "many".to_string()];
    assert!(matches!(total_from_info_texts(&bad), Err(FerrumenaError::Logic(_))));
    let short = vec!["1 - 50".to_string()];
    assert!(matches!(total_from_info_texts(&short), Err(FerrumenaError::DomParse { .. })));
}

#[test]
fn first_page_reads_cards_and_total() {
    let html = "<html><body>\
        <div class=\"image-container\" data-image-id=\"7\" data-uris=\"{&quot;tall&quot;:&quot;https://c/7.gif&quot;}\"></div>\
        <div class=\"image-container\" data-image-id=\"8\" data-uris=\"{&quot;full&quot;:&quot;https://c/8.webm&quot;}\"></div>\
        <span class=\"page__info\"><strong>1 - 2</strong> of <strong>2</strong></span>\
        </body></html>";
    let page = parse_search_page(html, 1).unwrap();
    assert_eq!(page.total, Some(2));
    assert_eq!(page.images.len(), 2);
    assert_eq!(page.images[0].format, "gif");
    assert_eq!(page.images[1].id, 8);
    assert_eq!(page.images[1].format, "webm");
}

#[test]
fn first_page_without_total_fails() {
    let html = "<html><body><div class=\"image-container\" data-image-id=\"7\" \
                data-uris=\"{&quot;full&quot;:&quot;a.png&quot;}\"></div></body></html>";
    assert!(parse_search_page(html, 1).is_err());
    assert!(parse_search_page(html, 3).is_ok());
}

#[test]
fn bad_card_rejects_whole_page() {
    let html = "<html><body>\
        <div class=\"image-container\" data-image-id=\"7\" data-uris=\"{&quot;full&quot;:&quot;a.png&quot;}\"></div>\
        <div class=\"image-container\" data-uris=\"{&quot;full&quot;:&quot;b.png&quot;}\"></div>\
        </body></html>";
    match parse_search_page(html, 2) {
        Err(FerrumenaError::DomParse { selector, .. }) => assert_eq!(selector, "data-image-id"),
        other => panic!("unexpected {:?}", other),
    }
}

#[test]
fn first_page_with_one_info_node_is_markup_error() {
    let html = "<html><body>\
        <div class=\"image-container\" data-image-id=\"7\" data-uris=\"{&quot;full&quot;:&quot;a.png&quot;}\"></div>\
        <span class=\"page__info\"><strong>1 - 1</strong></span>\
        </body></html>";
    assert!(matches!(parse_search_page(html, 1), Err(FerrumenaError::DomParse { .. })));
}

#[test]
fn first_page_with_unreadable_total_is_read_error() {
    let html = "<html><body><span class=\"page__info\"><strong>1 - 1</strong> of \
                <strong>lots</strong></span></body></html>";
    assert!(matches!(parse_search_page(html, 1), Err(FerrumenaError::Logic(_))));
}

#[test]
fn error_messages_name_the_offending_value() {
    match parse_representations("{&quot;full&quot;:", 7) {
        Err(FerrumenaError::Logic(m)) => assert_eq!(m, "cannot decode the representations of image 7"),
        other => panic!("unexpected {:?}", other),
    }
    match parse_card(&None, &None) {
        Err(FerrumenaError::DomParse { selector, location }) => {
            assert_eq!(selector, "data-image-id");
            assert_eq!(location, "image-container");
        }
        other => panic!("unexpected {:?}", other),
    }
    match parse_card(&Some("-1".to_string()), &None) {
        Err(FerrumenaError::Logic(m)) => assert_eq!(m, "invalid image id: -1"),
        other => panic!("unexpected {:?}", other),
    }
    let texts = vec!["1 - 50".to_string(), " lots ".to_string()];
    match total_from_info_texts(&texts) {
        Err(FerrumenaError::Logic(m)) => assert_eq!(m, "cannot read the result count: lots"),
        other => panic!("unexpected {:?}", other),
    }
    match build_image_item(3, reps(&[("full", "http://x/image")])) {
        Err(FerrumenaError::Logic(m)) => assert_eq!(m, "no file extension in URL: http://x/image"),
        other => panic!("unexpected {:?}", other),
    }
}
