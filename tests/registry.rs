use jobboard::{App, CurrentJob, Handshake, JobId, JobMessage};

fn id(s: &str) -> JobId {
    JobId(s.to_string())
}

fn handshake(s: &str, total: usize) -> Handshake {
    Handshake { id: id(s), total_epochs: total }
}

fn update(current: Option<usize>, total: Option<usize>, message: Option<&str>) -> JobMessage {
    JobMessage {
        current_epoch: current,
        total_epochs: total,
        message: message.map(|m| m.to_string()),
    }
}

#[test]
fn new_app_is_empty() {
    let app = App::new();
    assert!(app.current_input.is_empty());
    assert!(app.current_jobs.is_empty());
    assert!(app.finished_jobs.is_empty());
}

#[test]
fn updates_overwrite_present_fields_only() {
    let mut app = App::new();
    app.register(handshake("job", 10));
    app.add_connection_message(id("job"), update(Some(3), None, None));
    app.add_connection_message(id("job"), update(None, None, Some("x")));
    let job = &app.current_jobs[0];
    assert_eq!(job.current_epoch, 3);
    assert_eq!(job.total_epochs, 10);
    assert_eq!(job.messages, vec!["x".to_string()]);
}

#[test]
fn later_update_replaces_earlier_value() {
    let mut app = App::new();
    app.register(handshake("job", 10));
    app.add_connection_message(id("job"), update(Some(3), Some(20), Some("a")));
    app.add_connection_message(id("job"), update(Some(5), None, Some("b")));
    let job = &app.current_jobs[0];
    assert_eq!(job.current_epoch, 5);
    assert_eq!(job.total_epochs, 20);
    assert_eq!(job.messages, vec!["a".to_string(), "b".to_string()]);
}

#[test]
fn update_for_unknown_job_is_ignored() {
    let mut app = App::new();
    app.register(handshake("job", 4));
    app.add_connection_message(id("other"), update(Some(2), Some(9), Some("m")));
    let job = &app.current_jobs[0];
    assert_eq!(job.current_epoch, 0);
    assert_eq!(job.total_epochs, 4);
    assert!(job.messages.is_empty());
}

#[test]
fn update_goes_to_first_job_of_that_name() {
    let mut app = App::new();
    app.register(handshake("dup", 4));
    app.register(handshake("dup", 8));
    app.add_connection_message(id("dup"), update(Some(2), None, None));
    assert_eq!(app.current_jobs[0].current_epoch, 2);
    assert_eq!(app.current_jobs[1].current_epoch, 0);
}

#[test]
fn add_new_connection_starts_with_one_epoch() {
    let mut app = App::new();
    app.add_new_connection("plain".to_string());
    assert_eq!(app.current_jobs.len(), 1);
    assert_eq!(app.current_jobs[0].id.0, "plain");
    assert_eq!(app.current_jobs[0].total_epochs, 1);
    assert_eq!(app.current_jobs[0].current_epoch, 0);
}

#[test]
fn finishing_moves_job_to_finished() {
    let mut app = App::new();
    app.register(handshake("job-7", 3));
    app.register(handshake("job-8", 3));
    app.finish_connection_at(id("job-7"), "09:04".to_string());
    assert_eq!(app.current_jobs.len(), 1);
    assert_eq!(app.current_jobs[0].id.0, "job-8");
    assert_eq!(app.finished_jobs.len(), 1);
    assert_eq!(app.finished_jobs[0].id.0, "job-7");
    assert_eq!(app.finished_jobs[0].end_time, "09:04");
}

#[test]
fn finishing_unknown_job_is_ignored() {
    let mut app = App::new();
    app.register(handshake("job", 3));
    app.finish_connection_at(id("ghost"), "10:00".to_string());
    assert_eq!(app.current_jobs.len(), 1);
    assert!(app.finished_jobs.is_empty());
}

#[test]
fn finishing_with_clock_stamps_hh_mm() {
    let mut app = App::new();
    app.register(handshake("job", 3));
    app.finish_connection(id("job"));
    assert!(app.current_jobs.is_empty());
    assert_eq!(app.finished_jobs.len(), 1);
    let stamp: Vec<char> = app.finished_jobs[0].end_time.chars().collect();
    assert_eq!(stamp.len(), 5);
    assert_eq!(stamp[2], ':');
    let hour: u32 = stamp[0].to_digit(10).unwrap() * 10 + stamp[1].to_digit(10).unwrap();
    let minute: u32 = stamp[3].to_digit(10).unwrap() * 10 + stamp[4].to_digit(10).unwrap();
    assert!(hour < 24);
    assert!(minute < 60);
}

#[test]
fn job_is_active_then_finished_never_both() {
    let mut app = App::new();
    app.register(handshake("life", 2));
    assert!(app.current_jobs.iter().any(|j| j.id.0 == "life"));
    assert!(!app.finished_jobs.iter().any(|j| j.id.0 == "life"));
    app.add_connection_message(id("life"), update(Some(1), None, Some("half")));
    assert!(app.current_jobs.iter().any(|j| j.id.0 == "life"));
    app.finish_connection_at(id("life"), "12:30".to_string());
    assert!(!app.current_jobs.iter().any(|j| j.id.0 == "life"));
    assert_eq!(app.finished_jobs.iter().filter(|j| j.id.0 == "life").count(), 1);
}

#[test]
fn reused_id_starts_independent_lifetime() {
    let mut app = App::new();
    app.register(handshake("again", 2));
    app.finish_connection_at(id("again"), "01:00".to_string());
    app.register(handshake("again", 7));
    assert_eq!(app.current_jobs.len(), 1);
    assert_eq!(app.current_jobs[0].total_epochs, 7);
    assert_eq!(app.finished_jobs.len(), 1);
}

#[test]
fn distinct_handshakes_each_register_once() {
    let names = ["a", "b", "c", "d", "e", "f", "g", "h", "i", "j", "k", "l", "m", "n"];
    let orders: [Vec<usize>; 2] = [(0..14).collect(), (0..14).rev().collect()];
    for order in orders.iter() {
        let mut app = App::new();
        for &k in order.iter() {
            app.register(handshake(names[k], k + 1));
        }
        assert_eq!(app.current_jobs.len(), 14);
        for (k, name) in names.iter().enumerate() {
            let found: Vec<&CurrentJob> =
                app.current_jobs.iter().filter(|j| j.id.0 == *name).collect();
            assert_eq!(found.len(), 1);
            assert_eq!(found[0].total_epochs, k + 1);
        }
    }
}

#[test]
fn finished_table_height_is_capped() {
    let mut app = App::new();
    assert_eq!(app.finished_table_height(), 7);
    for k in 0..3 {
        let name = format!("j{}", k);
        app.register(handshake(&name, 1));
        app.finish_connection_at(id(&name), "00:00".to_string());
    }
    assert_eq!(app.finished_table_height(), 10);
    for k in 3..9 {
        let name = format!("j{}", k);
        app.register(handshake(&name, 1));
        app.finish_connection_at(id(&name), "00:00".to_string());
    }
    assert_eq!(app.finished_table_height(), 12);
}
