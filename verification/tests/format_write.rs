use elegant_clipboard::database::ClipboardItem;
use elegant_clipboard::format_write::{
    item_alt_text, item_plain_text, rich_attempts, rich_summary, rich_verify, strip_html_tags,
    write_plan, ClipboardWrite, RichPiece,
};
use elegant_clipboard::merge_paste::{
    extract_merge_text, join_strings, merge_plan, merge_text_with, merged_html, MergePlan,
};

fn item(id: i64, content_type: &str, text: Option<&str>, paths: Option<&str>) -> ClipboardItem {
    ClipboardItem {
        id,
        content_type: content_type.to_string(),
        text_content: text.map(str::to_string),
        html_content: None,
        rtf_content: None,
        image_path: None,
        file_paths: paths.map(str::to_string),
        file_payload: None,
        content_hash: "h".into(),
        semantic_hash: "h".into(),
        preview: None,
        byte_size: 0,
        image_width: None,
        image_height: None,
        is_pinned: false,
        is_favorite: false,
        favorite_order: 0,
        sort_order: id,
        created_at: "2026-01-01".into(),
        updated_at: "2026-01-01".into(),
        access_count: 0,
        last_accessed_at: None,
        char_count: None,
        source_app_name: None,
        source_app_icon: None,
        group_id: None,
        files_valid: None,
    }
}

#[test]
fn strip_html_tags_basic() {
    assert_eq!(strip_html_tags("<p>Hello <b>world</b></p>"), "Hello world");
}

#[test]
fn strip_html_collapses_whitespace() {
    assert_eq!(strip_html_tags("  <div>\n a \t b </div>  c\u{3000}d "), "a b c d");
    assert_eq!(strip_html_tags("<br/>"), "");
    assert_eq!(strip_html_tags("x > y"), "x y");
    assert_eq!(strip_html_tags("a<b"), "a");
}

#[test]
fn extract_merge_text_prefers_text_content() {
    let i = item(1, "text", Some("hello"), None);
    assert_eq!(extract_merge_text(&i, None), Some("hello".into()));
}

#[test]
fn extract_merge_text_from_files() {
    let i = item(1, "files", None, Some(r#"["C:\\a.txt"]"#));
    assert_eq!(extract_merge_text(&i, None), Some("C:\\a.txt".into()));
}

#[test]
fn merge_text_of_several_files_and_images() {
    let i = item(1, "files", None, Some(r#"["C:\\a.txt","C:\\b.txt"]"#));
    assert_eq!(extract_merge_text(&i, None), Some("C:\\a.txt\nC:\\b.txt".into()));
    let mut img = item(2, "image", None, None);
    assert_eq!(extract_merge_text(&img, None), None);
    img.image_path = Some("D:\\img.png".into());
    img.preview = Some("ignored".into());
    assert_eq!(extract_merge_text(&img, None), Some("D:\\img.png".into()));
    let mut html = item(3, "html", Some(""), None);
    html.html_content = Some("<i>hi</i>".into());
    assert_eq!(extract_merge_text(&html, None), Some("hi".into()));
}

#[test]
fn alt_text_falls_back_to_preview_unless_placeholder() {
    let mut i = item(1, "rtf", None, None);
    i.preview = Some("[RTF Content]".into());
    assert_eq!(item_alt_text(&i), None);
    i.preview = Some("plain".into());
    assert_eq!(item_alt_text(&i), Some("plain".into()));
    i.html_content = Some("<b> </b>".into());
    assert_eq!(item_alt_text(&i), Some("plain".into()));
}

#[test]
fn plain_text_by_type() {
    let mut html = item(1, "html", None, None);
    assert_eq!(item_plain_text(&html), Err("Item has no text content".into()));
    html.html_content = Some("<p>A</p>".into());
    assert_eq!(item_plain_text(&html), Ok("A".into()));
    let text = item(2, "text", Some(""), None);
    assert_eq!(item_plain_text(&text), Err("Item has no text content".into()));
    let img = item(3, "image", None, None);
    assert_eq!(
        item_plain_text(&img),
        Err("Item type image has no plain text representation".into())
    );
    let files = item(4, "files", Some("x"), None);
    assert_eq!(item_plain_text(&files), Ok("x".into()));
}

#[test]
fn joins_and_merged_html() {
    assert_eq!(join_strings(&[], ","), "");
    assert_eq!(join_strings(&["a".to_string(), "b".to_string()], ", "), "a, b");
    let mut a = item(1, "html", None, None);
    a.html_content = Some("<b>1</b>".into());
    let b = item(2, "text", Some("t"), None);
    let mut c = item(3, "html", None, None);
    c.html_content = Some("<i>2</i>".into());
    assert_eq!(merged_html(&[a, b.clone(), c], "\n"), Some("<b>1</b>\n<i>2</i>".into()));
    assert_eq!(merged_html(&[b], "\n"), None);
}

#[test]
fn write_plan_by_content_type() {
    let t = item(1, "text", Some("hi"), None);
    assert_eq!(write_plan(&t), Ok(ClipboardWrite::Text("hi".into())));
    let empty = item(2, "url", Some(""), None);
    assert_eq!(write_plan(&empty), Err("Item has no text content".to_string()));
    let mut h = item(3, "html", Some("x"), None);
    assert_eq!(write_plan(&h), Ok(ClipboardWrite::Text("x".into())));
    h.html_content = Some("<b>x</b>".into());
    assert_eq!(write_plan(&h), Ok(ClipboardWrite::Rich));
    let mut r = item(4, "rtf", None, None);
    r.rtf_content = Some("{\\rtf1}".into());
    assert_eq!(write_plan(&r), Ok(ClipboardWrite::Rich));
    let mut img = item(5, "image", None, None);
    assert_eq!(write_plan(&img), Err("Item has no image path".to_string()));
    img.image_path = Some("a.png".into());
    assert_eq!(write_plan(&img), Ok(ClipboardWrite::Image("a.png".into())));
    let f = item(6, "files", None, Some("[\"C:\\\\a.txt\"]"));
    assert_eq!(write_plan(&f), Ok(ClipboardWrite::Files(vec!["C:\\a.txt".into()])));
    let bad = item(7, "files", None, Some("not json"));
    assert!(write_plan(&bad).unwrap_err().starts_with("Failed to parse file paths: "));
    assert_eq!(write_plan(&item(8, "files", None, None)), Err("Item has no file paths".to_string()));
    assert_eq!(
        write_plan(&item(9, "video", None, None)),
        Err("Unsupported content type: video".to_string())
    );
}

#[test]
fn rich_write_tries_with_rtf_then_without_then_text() {
    let mut h = item(1, "html", None, None);
    h.html_content = Some("<p>Hello</p>".into());
    let (attempts, fallback) = rich_attempts(&h, &Some(b"{\\rtf1 Hello}".to_vec()));
    assert_eq!(attempts.len(), 2);
    assert_eq!(
        attempts[0],
        vec![
            RichPiece::Text("Hello".into()),
            RichPiece::Html("<p>Hello</p>".into()),
            RichPiece::Rtf(b"{\\rtf1 Hello}".to_vec()),
        ]
    );
    assert_eq!(attempts[1], vec![RichPiece::Text("Hello".into()), RichPiece::Html("<p>Hello</p>".into())]);
    assert_eq!(rich_summary(&attempts[0]), "text+html+Rich Text Format");
    assert_eq!(fallback, Some("Hello".into()));
    let mut r = item(2, "rtf", None, None);
    r.rtf_content = Some("e3J0ZjF9".into());
    let (only_rtf, none) = rich_attempts(&r, &Some(b"{\\rtf1}".to_vec()));
    assert_eq!(only_rtf, vec![vec![RichPiece::Rtf(b"{\\rtf1}".to_vec())]]);
    assert_eq!(none, None);
    let (nothing, _) = rich_attempts(&r, &None);
    assert!(nothing.is_empty());
}

#[test]
fn rich_read_back_stops_at_the_first_format_that_reads() {
    assert_eq!(rich_verify(true, true, true, false, true, false), (true, "text=ok".to_string()));
    assert_eq!(
        rich_verify(true, false, true, true, true, false),
        (true, "text=fail, html=ok".to_string())
    );
    assert_eq!(
        rich_verify(false, false, true, false, true, false),
        (false, "html=fail, rtf=fail".to_string())
    );
    assert_eq!(rich_verify(false, false, false, false, false, false), (false, String::new()));
}

#[test]
fn merged_paste_gathers_files_images_texts_and_markup() {
    let mut files = item(1, "files", None, Some(r#"["C:\\a.txt","C:\\b.txt"]"#));
    files.preview = Some("2 files".into());
    let mut image = item(2, "image", None, None);
    image.image_path = Some("D:\\img\\1.png".into());
    let mut html = item(3, "html", Some("Hello"), None);
    html.html_content = Some("<b>Hello</b>".into());
    let items = vec![files.clone(), image, html];
    let resolved = vec![
        vec!["C:\\a.txt".to_string(), "C:\\a.txt".to_string()],
        vec![],
        vec![],
    ];
    let plan = merge_plan(&items, &resolved, &[false, true, false], &[None, None, Some(vec![1, 2])], " | ").unwrap();
    assert_eq!(
        plan,
        MergePlan {
            files: vec!["C:\\a.txt".into(), "D:\\img\\1.png".into()],
            text: Some("C:\\a.txt\nC:\\a.txt | D:\\img\\1.png | Hello".into()),
            html: Some("<b>Hello</b>".into()),
            rtf: Some(vec![1, 2]),
        }
    );
    assert_eq!(merge_text_with(&files, &vec![]), Some("2 files".into()));
}

#[test]
fn merged_paste_refuses_nothing_to_merge() {
    assert_eq!(merge_plan(&[], &[], &[], &[], ","), Err("No items selected".to_string()));
    let empty = item(1, "image", None, None);
    assert_eq!(
        merge_plan(&[empty], &[vec![]], &[false], &[None], ","),
        Err("选中的项目没有可合并的内容".to_string())
    );
    let a = item(1, "rtf", Some("x"), None);
    let b = item(2, "rtf", Some("y"), None);
    let plan = merge_plan(&[a, b], &[vec![], vec![]], &[false, false], &[Some(vec![1]), Some(vec![2])], "+").unwrap();
    assert_eq!(plan.rtf, None);
    assert_eq!(plan.text, Some("x+y".into()));
}
