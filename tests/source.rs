use wordle_cli::session::Langs;
use wordle_cli::source::{get_query_object, merge_pages, page_urls, page_words, push_decimal};
use wordle_cli::store::{decode_words, encode_words, file_name};

fn words(list: &[&str]) -> Vec<String> {
    list.iter().map(|w| w.to_string()).collect()
}

#[test]
fn query_objects_per_language() {
    let en = get_query_object(&Langs::En);
    assert_eq!(en.url, "https://wordfind.com/length/5-letter-words");
    assert_eq!(en.selector, "li.dl>a");
    let es = get_query_object(&Langs::Es);
    assert_eq!(es.url, "https://muchaspalabras.com/5-letras/diccionario");
    assert_eq!(es.selector, "ul.inline-list.words.group0.sort>li>a");
}

#[test]
fn english_source_is_one_page() {
    assert_eq!(page_urls(&Langs::En), words(&["https://wordfind.com/length/5-letter-words/"]));
}

#[test]
fn spanish_source_is_paginated() {
    let urls = page_urls(&Langs::Es);
    assert_eq!(urls.len(), 39);
    assert_eq!(urls[0], "https://muchaspalabras.com/5-letras/diccionario/1");
    assert_eq!(urls[9], "https://muchaspalabras.com/5-letras/diccionario/10");
    assert_eq!(urls[38], "https://muchaspalabras.com/5-letras/diccionario/39");
}

#[test]
fn decimal_rendering() {
    let mut s = String::from("p");
    push_decimal(&mut s, 0);
    push_decimal(&mut s, 4029);
    assert_eq!(s, "p04029");
}

#[test]
fn failed_pages_are_skipped() {
    let pages = vec![Some(words(&["casa", "perro"])), None, Some(words(&["gatos"]))];
    assert_eq!(merge_pages(&pages), words(&["casa", "perro", "gatos"]));
    assert!(merge_pages(&vec![None]).is_empty());
}

#[test]
fn page_words_reads_selected_elements() {
    let query = get_query_object(&Langs::En);
    let html = "<html><body><ul><li class=\"dl\"><a>crane</a></li><li><a>skip</a></li>\
                <li class=\"dl\"><a>ocean</a></li></ul></body></html>";
    assert_eq!(page_words(&query, html), Some(words(&["crane", "ocean"])));
}

#[test]
fn page_words_with_malformed_selector() {
    let mut query = get_query_object(&Langs::En);
    query.selector = "li[".to_string();
    assert_eq!(page_words(&query, "<a>x</a>"), None);
}

#[test]
fn stored_format_round_trip() {
    let list = words(&["crane", "ocean"]);
    let text = encode_words(&list);
    assert_eq!(text, "crane:ocean:");
    assert_eq!(decode_words(&text), words(&["crane", "ocean", ""]));
    assert_eq!(encode_words(&vec![]), "");
}

#[test]
fn file_names_follow_language() {
    assert_eq!(file_name(&Langs::En), "English.txt");
    assert_eq!(file_name(&Langs::Es), "Español.txt");
}
