use todo::model::{Action, Prio, Status};
use todo::style::{Color, StyleDisplay, Styler};

#[test]
fn test_default() {
    let st = Styler::default();
    let s = st.style("default");
    assert_eq!(s, "default");
}

#[test]
fn test_bold() {
    let st = Styler::default().bold(true);
    let s = st.style("bold");
    assert!(s.len() > 4);
}

#[test]
fn test_underline() {
    let st = Styler::default().underline(true);
    let s = st.style("underline");
    assert!(s.len() > 9);
}

#[test]
fn test_bold_underline() {
    let st = Styler::default().bold(true).underline(true);
    let s = st.style("combo");
    assert!(s.len() > 5);
}

#[test]
fn test_fg() {
    let st = Styler::default().fg(Color::Red);
    let s = st.style("red");
    assert!(s.len() > 3);
}

#[test]
fn test_bold_fg() {
    let st = Styler::default().bold(true).fg(Color::Red);
    let s = st.style("red");
    assert!(s.len() > 3);
}

#[test]
fn styled_text_holds_the_text() {
    let s = Styler::default().bold(true).fg(Color::Green).style("word");
    assert!(s.contains("word"));
    assert_ne!(s, Styler::default().fg(Color::Red).style("word"));
    assert_ne!(
        Styler::default().underline(true).style("word"),
        Styler::default().bold(true).style("word")
    );
}

#[test]
fn stylers_of_values() {
    assert_eq!(Prio::Critical.styler().fg, Some(Color::Red));
    assert_eq!(Prio::High.styler().fg, Some(Color::Yellow));
    assert_eq!(Prio::Normal.styler().fg, None);
    assert_eq!(Prio::Low.styler().fg, Some(Color::Blue));
    assert_eq!(Status::New.styler().fg, Some(Color::Cyan));
    assert_eq!(Status::Started.styler().fg, Some(Color::Blue));
    assert_eq!(Status::Done.styler().fg, Some(Color::Green));
    assert_eq!(Status::Blocked.styler().fg, Some(Color::Red));
    assert_eq!(Action::Add.styler().fg, Some(Color::Green));
    assert_eq!(Action::Update.styler().fg, Some(Color::Cyan));
    assert_eq!(Action::Remove.styler().fg, Some(Color::Red));
    assert_eq!(Prio::Normal.style(), "normal");
    assert!(Status::Done.style().contains("done"));
}
