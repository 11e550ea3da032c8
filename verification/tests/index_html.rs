use dioxus_fullstack::index_html::{load_index_html, split_index_html, IndexHtmlError};

fn parts_by_std(contents: &str, root_id: &str) -> Option<(String, String)> {
    let marker = format!("id=\"{root_id}\"");
    let (before, rest) = contents.split_once(&marker)?;
    let (tag_rest, after) = rest.split_once('>')?;
    Some((format!("{before}{marker}{tag_rest}>"), after.to_string()))
}

fn parts_by_split(contents: &str, root_id: &str) -> Option<(String, String)> {
    split_index_html(contents, root_id)
        .ok()
        .map(|index| (index.pre_main, index.post_main))
}

#[test]
fn splits_behind_the_opening_tag_of_the_root_element() {
    let page = "<html><body><div id=\"main\"></div></body></html>";
    let index = split_index_html(page, "main").unwrap();
    assert_eq!(index.pre_main, "<html><body><div id=\"main\">");
    assert_eq!(index.post_main, "</div></body></html>");
}

#[test]
fn attributes_behind_the_id_stay_in_the_first_part() {
    let page = "<div id=\"app\" class=\"wide\" hidden>loading</div>";
    let index = split_index_html(page, "app").unwrap();
    assert_eq!(index.pre_main, "<div id=\"app\" class=\"wide\" hidden>");
    assert_eq!(index.post_main, "loading</div>");
}

#[test]
fn the_two_parts_make_up_the_page() {
    let page = "<!DOCTYPE html>\n<html>\n<head><title>t</title></head>\n<body>\n<div id=\"main\">\n</div>\n</body>\n</html>\n";
    let index = split_index_html(page, "main").unwrap();
    assert_eq!(format!("{}{}", index.pre_main, index.post_main), page);
    assert!(index.pre_main.ends_with("<div id=\"main\">"));
    assert!(index.post_main.starts_with("\n</div>"));
}

#[test]
fn the_first_root_element_is_taken() {
    let page = "<p id=\"main\">one</p><p id=\"main\">two</p>";
    let index = split_index_html(page, "main").unwrap();
    assert_eq!(index.pre_main, "<p id=\"main\">");
    assert_eq!(index.post_main, "one</p><p id=\"main\">two</p>");
}

#[test]
fn brackets_before_the_root_element_do_not_count() {
    let page = "<a><b><c id=\"main\" x>y>z";
    let index = split_index_html(page, "main").unwrap();
    assert_eq!(index.pre_main, "<a><b><c id=\"main\" x>");
    assert_eq!(index.post_main, "y>z");
}

#[test]
fn a_longer_id_is_another_id() {
    let page = "<div id=\"main2\"></div><div id=\"main\">x</div>";
    let index = split_index_html(page, "main").unwrap();
    assert_eq!(index.pre_main, "<div id=\"main2\"></div><div id=\"main\">");
    assert_eq!(index.post_main, "x</div>");
}

#[test]
fn page_may_end_with_the_opening_tag() {
    let index = split_index_html("id=\"main\">", "main").unwrap();
    assert_eq!(index.pre_main, "id=\"main\">");
    assert_eq!(index.post_main, "");
}

#[test]
fn empty_root_id_is_looked_for_as_it_is() {
    let index = split_index_html("<div id=\"\">x", "").unwrap();
    assert_eq!(index.pre_main, "<div id=\"\">");
    assert_eq!(index.post_main, "x");
}

#[test]
fn text_outside_ascii_is_split_between_characters() {
    let page = "<title>Grüße, 世界 🚀</title><div id=\"główna\" lang=\"pl\">żółć</div>";
    let index = split_index_html(page, "główna").unwrap();
    assert_eq!(
        index.pre_main,
        "<title>Grüße, 世界 🚀</title><div id=\"główna\" lang=\"pl\">"
    );
    assert_eq!(index.post_main, "żółć</div>");
}

#[test]
fn page_without_the_root_id_is_refused() {
    let page = "<html><body><div id=\"other\"></div></body></html>";
    assert_eq!(
        split_index_html(page, "main").err(),
        Some(IndexHtmlError::MissingRootId)
    );
    assert_eq!(
        split_index_html("", "main").err(),
        Some(IndexHtmlError::MissingRootId)
    );
    assert_eq!(
        split_index_html("<div id='main'>", "main").err(),
        Some(IndexHtmlError::MissingRootId)
    );
}

#[test]
fn root_element_without_closing_bracket_is_refused() {
    assert_eq!(
        split_index_html("<html><div id=\"main\" class=\"x\"", "main").err(),
        Some(IndexHtmlError::UnclosedRootTag)
    );
    assert_eq!(
        split_index_html("<div id=\"main\"", "main").err(),
        Some(IndexHtmlError::UnclosedRootTag)
    );
}

#[test]
fn split_agrees_with_the_standard_library() {
    let pages = [
        "",
        ">",
        "id=\"main\"",
        "id=\"main\">",
        "<div id=\"main\"></div>",
        "<div id=\"main\" a=\"b>c\">d</div>",
        "x id=\"mai\" id=\"main id=\"main\" y > z > w",
        "id=\"id=\"main\"\">>",
        "ééé id=\"main\" ü>ß",
        "<div id=\"app\"></div>",
        "<div id=\"\"></div>",
    ];
    let ids = ["main", "app", "", "mai", "é"];
    for page in pages {
        for id in ids {
            assert_eq!(parts_by_split(page, id), parts_by_std(page, id));
        }
    }
}

#[test]
fn load_gives_the_parts_of_a_page_that_holds_the_root_element() {
    let page = "<body><main id=\"main\">old</main></body>";
    let index = load_index_html(page, "main");
    assert_eq!(index.pre_main, "<body><main id=\"main\">");
    assert_eq!(index.post_main, "old</main></body>");
}

#[test]
fn split_agrees_with_the_standard_library_on_generated_pages() {
    let alphabet = ['i', 'd', '=', '"', 'm', '>', ' ', 'é'];
    let mut seed: u64 = 0x2545_f491_4f6c_dd1d;
    let mut splits = 0;
    for round in 0..4000 {
        let mut page = String::new();
        let len = round % 40;
        for _ in 0..len {
            seed = seed
                .wrapping_mul(6364136223846793005)
                .wrapping_add(1442695040888963407);
            page.push(alphabet[((seed >> 33) % 8) as usize]);
        }
        if round % 3 == 0 {
            let at = page.char_indices().nth(len / 2).map(|(i, _)| i).unwrap_or(0);
            page.insert_str(at, "id=\"m\"");
        }
        for id in ["m", "", "mm"] {
            let by_split = parts_by_split(&page, id);
            assert_eq!(by_split, parts_by_std(&page, id));
            if by_split.is_some() {
                splits += 1;
            }
        }
    }
    assert!(splits > 500);
}
