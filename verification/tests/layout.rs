use food::layout::Layout;

#[test]
fn new_layout_is_titled_food() {
    assert_eq!(Layout::new().title, "Food");
}

#[test]
fn with_status_puts_status_and_bar_before_the_title() {
    let layout = Layout::new().with_status("404 - Not Found");
    assert_eq!(layout.title, "404 - Not Found | Food");
    let twice = layout.with_status("x");
    assert_eq!(twice.title, "x | 404 - Not Found | Food");
    assert_eq!(Layout { title: String::new() }.with_status("").title, " | ");
}
