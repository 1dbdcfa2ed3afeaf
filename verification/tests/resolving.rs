use sockscope::resolver::{
    is_process_id, resolve, resolve_one, socket_handle_of_link, ProcessEntry, ProcessSocketIndex,
};
use sockscope::schemas::{Connection, Endpoint, IpAddress, Protocol, SocketEntry, SocketState};
use sockscope::select::{after_prompt, chosen_pid, menu_choices, parse_i32, KillStep};

fn entry(handle: u64, port: u16) -> SocketEntry {
    SocketEntry {
        proto: Protocol::Tcp,
        local: Endpoint { address: IpAddress::V4(0), port },
        remote: Endpoint { address: IpAddress::V4(0), port: 0 },
        state: SocketState::Listen,
        handle,
    }
}

#[test]
fn resolution_keeps_every_row() {
    let mut index = ProcessSocketIndex::new();
    index.record(2, "20".to_string(), "two".to_string());
    let entries = vec![entry(1, 10), entry(2, 20), entry(3, 30), entry(2, 40)];
    let all = resolve(&entries, &index);
    assert_eq!(all.len(), 4);
    assert_eq!(all[0].pid, "");
    assert_eq!(all[0].program, "");
    assert_eq!(all[0].local.port, 10);
    assert_eq!(all[1].pid, "20");
    assert_eq!(all[1].program, "two");
    assert_eq!(all[2].pid, "");
    assert_eq!(all[3].pid, "20");
    assert_eq!(all[3].local.port, 40);
    assert!(resolve(&Vec::new(), &index).is_empty());
}

#[test]
fn entry_without_owner_has_empty_pid_and_program() {
    let index = ProcessSocketIndex::new();
    let c = resolve_one(&entry(9, 53), &index);
    assert_eq!(
        c,
        Connection {
            proto: Protocol::Tcp,
            local: Endpoint { address: IpAddress::V4(0), port: 53 },
            remote: Endpoint { address: IpAddress::V4(0), port: 0 },
            state: SocketState::Listen,
            pid: String::new(),
            program: String::new(),
        }
    );
}

#[test]
fn record_made_last_stands() {
    let mut index = ProcessSocketIndex::new();
    assert_eq!(index.find(5), None);
    assert!(index.record(5, "1".to_string(), "first".to_string()));
    index.record(6, "2".to_string(), "other".to_string());
    index.record(5, "3".to_string(), "second".to_string());
    assert_eq!(index.find(5), Some(2));
    assert_eq!(index.find(6), Some(1));
    assert_eq!(index.find(7), None);
    let c = resolve_one(&entry(5, 1), &index);
    assert_eq!(c.pid, "3");
    assert_eq!(c.program, "second");
}

#[test]
fn socket_links_name_their_handle() {
    assert_eq!(socket_handle_of_link(&b"socket:[12345]".to_vec()), Some(12345));
    assert_eq!(socket_handle_of_link(&b"socket:[0]".to_vec()), Some(0));
    assert_eq!(socket_handle_of_link(&b"socket:[]".to_vec()), None);
    assert_eq!(socket_handle_of_link(&b"socket:[12a]".to_vec()), None);
    assert_eq!(socket_handle_of_link(&b"socket:[12345".to_vec()), None);
    assert_eq!(socket_handle_of_link(&b"pipe:[12345]".to_vec()), None);
    assert_eq!(socket_handle_of_link(&b"/dev/null".to_vec()), None);
    assert_eq!(socket_handle_of_link(&b"anon_inode:[eventpoll]".to_vec()), None);
    assert_eq!(socket_handle_of_link(&b"socket:[99999999999999999999]".to_vec()), None);
    assert_eq!(socket_handle_of_link(&Vec::new()), None);
}

#[test]
fn numbers_are_read_as_the_standard_library_reads_them() {
    for t in ["0", "1", "-1", "+7", "2147483647", "-2147483648", "2147483648", "-2147483649",
        "", "+", "-", "12a", " 1", "1 ", "--1", "0042", "99999999999999999999999", "٣"]
    {
        assert_eq!(parse_i32(t), t.parse::<i32>().ok(), "text {:?}", t);
    }
    assert_eq!(parse_i32("1234"), Some(1234));
    assert_eq!(parse_i32("-2147483648"), Some(i32::MIN));
}

#[test]
fn menu_counts_from_one() {
    assert_eq!(menu_choices(0), Vec::<u32>::new());
    assert_eq!(menu_choices(3), vec![1, 2, 3]);
}

#[test]
fn chosen_number_stands_for_the_pid_of_its_row() {
    let mut index = ProcessSocketIndex::new();
    index.record(1, "4321".to_string(), "daemon".to_string());
    let all = resolve(&vec![entry(1, 80), entry(2, 81)], &index);
    assert_eq!(chosen_pid(&all, 1), Some(4321));
    assert_eq!(chosen_pid(&all, 2), None);
}

#[test]
fn process_records_its_sockets_only() {
    let mut index = ProcessSocketIndex::new();
    index.record(7, "1".to_string(), "init".to_string());
    let targets = vec![
        b"/dev/null".to_vec(),
        b"socket:[41]".to_vec(),
        b"pipe:[42]".to_vec(),
        b"socket:[43]".to_vec(),
    ];
    index.record_process(&"900".to_string(), &"worker".to_string(), &targets);
    let entry = |handle: u64, pid: &str, program: &str| ProcessEntry {
        handle,
        pid: pid.to_string(),
        program: program.to_string(),
    };
    assert_eq!(
        *index.entries(),
        vec![entry(7, "1", "init"), entry(41, "900", "worker"), entry(43, "900", "worker")]
    );
    index.record_process(&"901".to_string(), &"idle".to_string(), &Vec::new());
    assert_eq!(index.entries().len(), 3);
    index.record_process(&String::new(), &"ghost".to_string(), &targets);
    assert_eq!(index.entries().len(), 3);
}

#[test]
fn process_names_are_decimal() {
    assert!(is_process_id(&b"1".to_vec()));
    assert!(is_process_id(&b"4194304".to_vec()));
    assert!(!is_process_id(&b"".to_vec()));
    assert!(!is_process_id(&b"self".to_vec()));
    assert!(!is_process_id(&b"12a".to_vec()));
    assert!(!is_process_id(&b"-1".to_vec()));
}

#[test]
fn record_without_pid_is_not_made() {
    let mut index = ProcessSocketIndex::new();
    assert!(!index.record(5, String::new(), "ghost".to_string()));
    assert!(index.entries().is_empty());
    assert_eq!(index.find(5), None);
    let c = resolve_one(&entry(5, 1), &index);
    assert_eq!(c.pid, "");
    assert_eq!(c.program, "");
    assert!(index.record(5, "12".to_string(), String::new()));
    let c = resolve_one(&entry(5, 1), &index);
    assert_eq!(c.pid, "12");
    assert_eq!(c.program, "");
}

#[test]
fn prompt_ends_in_one_of_three_steps() {
    let mut index = ProcessSocketIndex::new();
    index.record(1, "4321".to_string(), "daemon".to_string());
    index.record(3, "not-a-number".to_string(), "odd".to_string());
    let all = resolve(&vec![entry(1, 80), entry(2, 81), entry(3, 82)], &index);
    assert_eq!(after_prompt(&all, None), KillStep::Cancelled);
    assert_eq!(after_prompt(&all, Some(1)), KillStep::Signal(4321));
    assert_eq!(after_prompt(&all, Some(2)), KillStep::NoPid);
    assert_eq!(after_prompt(&all, Some(3)), KillStep::NoPid);
    assert_eq!(after_prompt(&Vec::new(), None), KillStep::Cancelled);
}
