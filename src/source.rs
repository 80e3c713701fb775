//! Where the word lists come from: one address and one element selector per
//! language, the pages to fetch, the words read from a fetched page, and the
//! merge of the pages that were fetched.
use vstd::prelude::*;
use crate::session::Langs;
use crate::text::push_char;

verus! {

/// The number of pages of the paginated (Spanish) source.
pub const SPANISH_PAGES: u32 = 39;

/// Where one language's words are found: the base address, and the selector
/// of the elements whose text is a word.
pub struct QueryObject {
    pub url: String,
    pub selector: String,
}

pub open spec fn url_of(lang: Langs) -> Seq<char> {
    match lang {
        Langs::En => "https://wordfind.com/length/5-letter-words"@,
        Langs::Es => "https://muchaspalabras.com/5-letras/diccionario"@,
    }
}

pub open spec fn selector_of(lang: Langs) -> Seq<char> {
    match lang {
        Langs::En => "li.dl>a"@,
        Langs::Es => "ul.inline-list.words.group0.sort>li>a"@,
    }
}

/// The address and selector of `lang`'s source.
pub fn get_query_object(lang: &Langs) -> (r: QueryObject)
    ensures
        r.url@ == url_of(*lang),
        r.selector@ == selector_of(*lang),
{
    match lang {
        Langs::En => QueryObject {
            url: String::from_str("https://wordfind.com/length/5-letter-words"),
            selector: String::from_str("li.dl>a"),
        },
        Langs::Es => QueryObject {
            url: String::from_str("https://muchaspalabras.com/5-letras/diccionario"),
            selector: String::from_str("ul.inline-list.words.group0.sort>li>a"),
        },
    }
}

/// The decimal digit `d`.
pub open spec fn digit(d: nat) -> char {
    if d == 0 {
        '0'
    } else if d == 1 {
        '1'
    } else if d == 2 {
        '2'
    } else if d == 3 {
        '3'
    } else if d == 4 {
        '4'
    } else if d == 5 {
        '5'
    } else if d == 6 {
        '6'
    } else if d == 7 {
        '7'
    } else if d == 8 {
        '8'
    } else {
        '9'
    }
}

/// `n` written in decimal, without leading zeros.
pub open spec fn decimal(n: nat) -> Seq<char>
    decreases n,
{
    if n < 10 {
        seq![digit(n)]
    } else {
        decimal(n / 10).push(digit(n % 10))
    }
}

fn digit_char(d: u32) -> (c: char)
    requires
        d < 10,
    ensures
        c == digit(d as nat),
{
    match d {
        0 => '0',
        1 => '1',
        2 => '2',
        3 => '3',
        4 => '4',
        5 => '5',
        6 => '6',
        7 => '7',
        8 => '8',
        _ => '9',
    }
}

/// Appends `n` in decimal to `s`.
pub fn push_decimal(s: &mut String, n: u32)
    ensures
        final(s)@ == old(s)@ + decimal(n as nat),
    decreases n,
{
    if n >= 10 {
        push_decimal(s, n / 10);
    }
    push_char(s, digit_char(n % 10));
    assert(final(s)@ =~= old(s)@ + decimal(n as nat));
}

/// How many pages `lang`'s source is spread over.
pub open spec fn page_count(lang: Langs) -> nat {
    match lang {
        Langs::Es => SPANISH_PAGES as nat,
        Langs::En => 1,
    }
}

/// What follows the base address for page `k` (counted from 0): the page
/// number, counted from 1, for the paginated source, and nothing for the
/// other.
pub open spec fn page_suffix(lang: Langs, k: int) -> Seq<char> {
    match lang {
        Langs::Es => decimal((k + 1) as nat),
        Langs::En => Seq::empty(),
    }
}

/// The address of page `k` of `lang`'s source.
pub open spec fn page_url(lang: Langs, k: int) -> Seq<char> {
    url_of(lang) + seq!['/'] + page_suffix(lang, k)
}

/// The address of one page: the base address, a slash, then `suffix`.
fn page_address(query: &QueryObject, suffix: Option<u32>) -> (r: String)
    ensures
        r@ == query.url@ + seq!['/'] + match suffix {
            Some(n) => decimal(n as nat),
            None => Seq::empty(),
        },
{
    let mut r = query.url.clone();
    push_char(&mut r, '/');
    match suffix {
        Some(n) => push_decimal(&mut r, n),
        None => {},
    }
    proof {
        if suffix is None {
            assert(r@ =~= query.url@ + seq!['/'] + Seq::<char>::empty());
        }
    }
    r
}

/// The addresses of all the pages of `lang`'s source, in the order they are
/// fetched.
pub fn page_urls(lang: &Langs) -> (r: Vec<String>)
    ensures
        r@.len() == page_count(*lang),
        forall|k: int| 0 <= k < r@.len() ==> #[trigger] r@[k]@ == page_url(*lang, k),
{
    let query = get_query_object(lang);
    let mut r: Vec<String> = Vec::new();
    match lang {
        Langs::Es => {
            let mut page: u32 = 1;
            while page <= SPANISH_PAGES
                invariant
                    1 <= page <= SPANISH_PAGES + 1,
                    *lang == Langs::Es,
                    query.url@ == url_of(*lang),
                    r@.len() == page - 1,
                    forall|k: int| 0 <= k < r@.len() ==> #[trigger] r@[k]@ == page_url(*lang, k),
                decreases SPANISH_PAGES + 1 - page,
            {
                let address = page_address(&query, Some(page));
                r.push(address);
                page += 1;
            }
        },
        Langs::En => {
            r.push(page_address(&query, None));
        },
    }
    r
}

/// Whether `selector` is a well-formed CSS selector group.
pub uninterp spec fn selector_valid(selector: Seq<char>) -> bool;

/// The text of each element of the HTML document `document` that `selector`
/// matches, in document order.
pub uninterp spec fn scraped_texts(document: Seq<char>, selector: Seq<char>) -> Seq<Seq<char>>;

/// Relies on scraper: `Selector::parse` accepts the selector or fails, and
/// for an accepted one, `Html::parse_document`, `Html::select` and
/// `ElementRef::text` give the text of each matching element, as a function
/// of the document and the selector alone.
#[verifier::external_body]
fn scrape_texts(document: &str, selector: &str) -> (r: Option<Vec<String>>)
    ensures
        r is Some <==> selector_valid(selector@),
        r matches Some(v) ==> v.deep_view() == scraped_texts(document@, selector@),
{
    let sel = scraper::Selector::parse(selector).ok()?;
    let html = scraper::Html::parse_document(document);
    let mut texts: Vec<String> = Vec::new();
    for element in html.select(&sel) {
        texts.push(element.text().collect::<String>());
    }
    Some(texts)
}

/// The words on a fetched page of `query`'s source: the text of each element
/// that its selector picks out; `None` where the selector is malformed.
pub fn page_words(query: &QueryObject, document: &str) -> (r: Option<Vec<String>>)
    ensures
        r is Some <==> selector_valid(query.selector@),
        r matches Some(v) ==> v.deep_view() == scraped_texts(document@, query.selector@),
{
    scrape_texts(document, query.selector.as_str())
}

/// The words of the pages that were fetched, in page order; a page that
/// failed (`None`) is skipped.
pub open spec fn merged(pages: Seq<Option<Seq<Seq<char>>>>) -> Seq<Seq<char>>
    decreases pages.len(),
{
    if pages.len() == 0 {
        Seq::empty()
    } else {
        merged(pages.drop_last()) + match pages.last() {
            Some(words) => words,
            None => Seq::empty(),
        }
    }
}

/// The view of each page's outcome.
pub open spec fn outcomes(pages: Seq<Option<Vec<String>>>) -> Seq<Option<Seq<Seq<char>>>> {
    pages.map_values(
        |p: Option<Vec<String>>|
            match p {
                Some(v) => Some(v.deep_view()),
                None => None,
            },
    )
}

/// The words of all the pages that were fetched, in page order, skipping
/// those whose fetch failed.
pub fn merge_pages(pages: &Vec<Option<Vec<String>>>) -> (r: Vec<String>)
    ensures
        r.deep_view() == merged(outcomes(pages@)),
{
    let mut word_list: Vec<String> = Vec::new();
    let mut i: usize = 0;
    while i < pages.len()
        invariant
            i <= pages@.len(),
            word_list.deep_view() == merged(outcomes(pages@).subrange(0, i as int)),
        decreases pages@.len() - i,
    {
        let ghost prefix = outcomes(pages@).subrange(0, i + 1);
        assert(prefix.drop_last() =~= outcomes(pages@).subrange(0, i as int));
        match &pages[i] {
            Some(value) => {
                let mut j: usize = 0;
                let ghost start = word_list.deep_view();
                while j < value.len()
                    invariant
                        j <= value@.len(),
                        word_list.deep_view() == start + value.deep_view().subrange(0, j as int),
                    decreases value@.len() - j,
                {
                    let ghost before = word_list.deep_view();
                    word_list.push(value[j].clone());
                    assert(word_list.deep_view() =~= before.push(value@[j as int]@));
                    assert(value.deep_view().subrange(0, j + 1) =~= value.deep_view().subrange(
                        0,
                        j as int,
                    ).push(value@[j as int]@));
                    j += 1;
                }
                assert(value.deep_view().subrange(0, value@.len() as int) =~= value.deep_view());
            },
            None => {
                assert(word_list.deep_view() =~= word_list.deep_view() + Seq::empty());
            },
        }
        i += 1;
    }
    assert(outcomes(pages@).subrange(0, pages@.len() as int) =~= outcomes(pages@));
    word_list
}

} // verus!
