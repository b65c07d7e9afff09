use templify::template_service::{template_uses_paste, TemplateService};

fn strings(items: &[&str]) -> Vec<String> {
    items.iter().map(|s| s.to_string()).collect()
}

#[test]
fn render_replaces_positional_parameters() {
    let service = TemplateService::new();
    let out = service.render("Hello $1, about $2.", &strings(&["Dev", "project X"]), None);
    assert_eq!(out, "Hello Dev, about project X.");
}

#[test]
fn render_replaces_paste_placeholder() {
    let service = TemplateService::new();
    let out = service.render("Context: $PASTE / $1", &strings(&["a"]), Some("clip"));
    assert_eq!(out, "Context: clip / a");
}

#[test]
fn render_without_paste_keeps_paste_placeholder() {
    let service = TemplateService::new();
    let out = service.render("Context: $PASTE", &strings(&[]), None);
    assert_eq!(out, "Context: $PASTE");
}

#[test]
fn render_high_indexes_first() {
    let service = TemplateService::new();
    let params = strings(&["one", "2", "3", "4", "5", "6", "7", "8", "9", "ten"]);
    let out = service.render("$1 $10 $1", &params, None);
    assert_eq!(out, "one ten one");
}

#[test]
fn render_unmatched_placeholders_stay() {
    let service = TemplateService::new();
    let out = service.render("$1 $2 $3", &strings(&["x"]), None);
    assert_eq!(out, "x $2 $3");
}

#[test]
fn render_plain_template_unchanged() {
    let service = TemplateService::new();
    let out = service.render("no placeholders here", &strings(&["a", "b"]), Some("c"));
    assert_eq!(out, "no placeholders here");
}

#[test]
fn render_parameter_text_is_scanned_by_lower_placeholders() {
    let service = TemplateService::new();
    // "$2" becomes "$1", which the later "$1" pass then replaces.
    let out = service.render("$2", &strings(&["X", "$1"]), None);
    assert_eq!(out, "X");
}

#[test]
fn render_paste_value_is_scanned_by_parameters() {
    let service = TemplateService::new();
    let out = service.render("$PASTE", &strings(&["p"]), Some("[$1]"));
    assert_eq!(out, "[p]");
}

#[test]
fn render_unicode_text() {
    let service = TemplateService::new();
    let out = service.render("Grüße $1 — 黑$PASTE", &strings(&["Zoë"]), Some("风"));
    assert_eq!(out, "Grüße Zoë — 黑风");
}

#[test]
fn template_uses_paste_detects_marker() {
    assert!(template_uses_paste("a $PASTE b"));
    assert!(!template_uses_paste("a $PAST b"));
    assert!(!template_uses_paste(""));
}

#[test]
fn render_lower_placeholder_takes_start_of_missing_higher_one() {
    let service = TemplateService::new();
    // With one parameter, "$10" is not a placeholder of its own: "$1" matches its start.
    let out = service.render("$10", &strings(&["x"]), None);
    assert_eq!(out, "x0");
}

#[test]
fn render_without_clipboard_keeps_every_paste_marker() {
    let service = TemplateService::new();
    let out = service.render("$PASTE a $1 $PASTE $2$PASTE", &strings(&["x", "y"]), None);
    assert_eq!(out, "$PASTE a x $PASTE y$PASTE");
}
