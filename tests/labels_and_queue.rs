use wavedash::labels::{assign, DashPane, LabelMap};
use wavedash::pane::{PaneFocus, PaneId};
use wavedash::queue::{CommandQueue, QueuedTimerCommand};

fn pane(title: &str, id: u32) -> DashPane {
    DashPane { title: title.to_string(), id: PaneId::Terminal(id), editor: false }
}

fn chars(s: &str) -> Vec<char> {
    s.chars().collect()
}

#[test]
fn scenario_permutation_fallback_two_letters() {
    let panes = vec![pane("Alpha", 1), pane("Beta", 2), pane("gamma", 3)];
    let labels = assign(&panes, &chars("ab"), &LabelMap::new());
    assert_eq!(labels.len(), 3);
    let got: Vec<String> = (1..=3).map(|i| labels.label_of(PaneId::Terminal(i)).unwrap()).collect();
    for l in &got {
        assert_eq!(l.chars().count(), 2);
        assert!(["aa", "ab", "ba", "bb"].contains(&l.as_str()));
    }
    assert_eq!(got, vec!["aa".to_string(), "ab".to_string(), "ba".to_string()]);
}

#[test]
fn mnemonic_labels_when_alphabet_allows() {
    let panes = vec![pane("Shell", 1), pane("logs", 2), pane("sql", 3)];
    let labels = assign(&panes, &chars("asdfghjkl"), &LabelMap::new());
    assert_eq!(labels.label_of(PaneId::Terminal(1)), Some("s".to_string()));
    assert_eq!(labels.label_of(PaneId::Terminal(2)), Some("l".to_string()));
    // "s" is taken, so the third pane takes the first free letter
    assert_eq!(labels.label_of(PaneId::Terminal(3)), Some("a".to_string()));
    assert_eq!(labels.pane_for("l"), Some(PaneId::Terminal(2)));
    assert_eq!(labels.pane_for("x"), None);
}

#[test]
fn labels_stay_when_a_pane_goes() {
    let a = chars("abc");
    let panes = vec![pane("b1", 1), pane("c1", 2), pane("x", 3)];
    let first = assign(&panes, &a, &LabelMap::new());
    let l1 = first.label_of(PaneId::Terminal(1)).unwrap();
    let l3 = first.label_of(PaneId::Terminal(3)).unwrap();
    let fewer = vec![pane("b1", 1), pane("x", 3)];
    let second = assign(&fewer, &a, &first);
    assert_eq!(second.len(), 2);
    assert_eq!(second.label_of(PaneId::Terminal(1)), Some(l1));
    assert_eq!(second.label_of(PaneId::Terminal(3)), Some(l3));
    assert_eq!(second.label_of(PaneId::Terminal(2)), None);
}

#[test]
fn length_change_relabels_everything() {
    let a = chars("ab");
    let two = vec![pane("a", 1), pane("b", 2)];
    let first = assign(&two, &a, &LabelMap::new());
    assert_eq!(first.label_of(PaneId::Terminal(1)), Some("a".to_string()));
    let three = vec![pane("a", 1), pane("b", 2), pane("bb", 3)];
    let second = assign(&three, &a, &first);
    assert_eq!(second.len(), 3);
    for i in 1..=3 {
        assert_eq!(second.label_of(PaneId::Terminal(i)).unwrap().chars().count(), 2);
    }
    assert_eq!(second.label_of(PaneId::Terminal(3)), Some("bb".to_string()));
}

#[test]
fn labels_are_distinct_at_full_capacity() {
    let a = chars("xy");
    let panes: Vec<DashPane> = (0..4).map(|i| pane("zz", i)).collect();
    let labels = assign(&panes, &a, &LabelMap::new());
    let mut got: Vec<String> = (0..4).map(|i| labels.label_of(PaneId::Terminal(i)).unwrap()).collect();
    got.sort();
    assert_eq!(got, vec!["xx", "xy", "yx", "yy"]);
}

#[test]
fn empty_panes_give_empty_map() {
    let labels = assign(&Vec::new(), &chars("ab"), &LabelMap::new());
    assert_eq!(labels.len(), 0);
}

#[test]
fn scenario_queue_three_bytes_then_string() {
    let mut q = CommandQueue::new();
    assert!(q.queue_write_bytes(vec![1]));
    assert!(!q.queue_write_bytes(vec![2]));
    assert!(!q.queue_write_bytes(vec![3]));
    assert!(!q.queue_write_string("four".to_string()));
    let mut seen = Vec::new();
    let mut ticks = 0;
    let mut armed = true;
    while armed {
        let (item, rearm) = q.dequeue_timer_command();
        ticks += 1;
        seen.push(item.unwrap());
        armed = rearm;
    }
    assert_eq!(ticks, 4);
    assert_eq!(
        seen,
        vec![
            QueuedTimerCommand::WriteBytes(vec![1]),
            QueuedTimerCommand::WriteBytes(vec![2]),
            QueuedTimerCommand::WriteBytes(vec![3]),
            QueuedTimerCommand::WriteString("four".to_string()),
        ]
    );
    assert!(!q.armed());
    assert_eq!(q.dequeue_timer_command(), (None, false));
}

#[test]
fn esc_and_enter_bytes() {
    let mut q = CommandQueue::new();
    assert!(q.queue_esc());
    assert!(!q.queue_enter());
    assert_eq!(q.dequeue_timer_command(), (Some(QueuedTimerCommand::WriteBytes(vec![27])), true));
    assert_eq!(q.dequeue_timer_command(), (Some(QueuedTimerCommand::WriteBytes(vec![13])), false));
}

#[test]
fn pane_identities() {
    assert_eq!(PaneId::new(4, true), PaneId::Plugin(4));
    assert_eq!(PaneId::new(4, false), PaneId::Terminal(4));
    let f = PaneFocus::new(PaneId::Plugin(2), true);
    assert_eq!(f, PaneFocus::Floating(PaneId::Plugin(2)));
    assert!(f.floating());
    assert_eq!(f.id(), PaneId::Plugin(2));
    assert!(!PaneFocus::new(PaneId::Terminal(2), false).floating());
    assert_ne!(PaneId::Terminal(7).key(), PaneId::Plugin(7).key());
    assert_eq!(PaneId::from_key(PaneId::Plugin(7).key()), PaneId::Plugin(7));
}

#[test]
fn mnemonic_labels_use_unicode_lower_case() {
    let panes = vec![pane("Élan", 1), pane("Zed", 2)];
    let labels = assign(&panes, &chars("éza"), &LabelMap::new());
    assert_eq!(labels.label_of(PaneId::Terminal(1)), Some("é".to_string()));
    assert_eq!(labels.label_of(PaneId::Terminal(2)), Some("z".to_string()));
}
