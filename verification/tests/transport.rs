use perspective::transport::{
    memory_client_action, server_action, MemoryAction, ClientRequest, RecvBuffer, ServerAction, SocketBuffer, TableRegistry,
};

#[test]
fn replies_before_read_are_kept_in_order() {
    let mut b = RecvBuffer::new();
    assert_eq!(b.deliver(3, vec![1, 2]), None);
    assert_eq!(b.deliver(3, vec![3]), None);
    assert_eq!(b.take(3), Some(vec![1, 2, 3]));
    assert!(!b.waits(3));
}

#[test]
fn waiting_reader_gets_next_reply() {
    let mut b = RecvBuffer::new();
    assert_eq!(b.take(7), None);
    assert!(b.waits(7));
    assert_eq!(b.deliver(7, vec![9, 9]), Some(vec![9, 9]));
    assert!(!b.waits(7));
    assert_eq!(b.deliver(7, vec![4]), None);
    assert_eq!(b.take(7), Some(vec![4]));
}

#[test]
fn tables_do_not_share_replies() {
    let mut b = RecvBuffer::new();
    b.deliver(1, vec![10]);
    b.deliver(2, vec![20]);
    assert_eq!(b.take(2), Some(vec![20]));
    assert_eq!(b.take(1), Some(vec![10]));
}

#[test]
fn socket_drops_messages_before_first_read() {
    let mut s = SocketBuffer::new();
    s.on_message(5, vec![1]);
    assert_eq!(s.recv(5), Vec::<u8>::new());
    s.on_message(5, vec![2, 3]);
    s.on_message(5, vec![4]);
    assert_eq!(s.recv(5), vec![2, 3, 4]);
    assert_eq!(s.recv(5), Vec::<u8>::new());
}

#[test]
fn registry_hands_out_ids_from_one() {
    let mut r: TableRegistry<&str> = TableRegistry::new();
    assert_eq!(r.create("first"), 1);
    assert_eq!(r.create("second"), 2);
    assert_eq!(r.get(1), Some(&"first"));
    assert_eq!(r.get(2), Some(&"second"));
    assert_eq!(r.get(3), None);
    assert!(r.contains(2));
}

#[test]
fn server_actions() {
    let mut r: TableRegistry<u8> = TableRegistry::new();
    let id = r.create(0);
    assert_eq!(server_action(&r, 0, ClientRequest::MakeTable), ServerAction::CreateTable);
    assert_eq!(server_action(&r, id, ClientRequest::TableSize), ServerAction::ReportSize(id));
    assert_eq!(server_action(&r, 42, ClientRequest::TableSize), ServerAction::Ignore);
    assert_eq!(server_action(&r, id, ClientRequest::TableSchema), ServerAction::Ignore);
    assert_eq!(server_action(&r, id, ClientRequest::Other), ServerAction::Ignore);
}

#[test]
fn memory_client_actions() {
    let mut r: TableRegistry<u8> = TableRegistry::new();
    let id = r.create(7);
    assert_eq!(memory_client_action(&r, 0, ClientRequest::MakeTable), MemoryAction::CreateTable);
    assert_eq!(memory_client_action(&r, id, ClientRequest::TableSize), MemoryAction::ReportSize(id));
    assert_eq!(memory_client_action(&r, id, ClientRequest::TableSchema), MemoryAction::ReportSchema(id));
    assert_eq!(memory_client_action(&r, id, ClientRequest::TableMakePort), MemoryAction::ReportPort(id));
}

#[test]
fn registry_ids_count_up_from_one() {
    let mut r: TableRegistry<usize> = TableRegistry::new();
    for j in 0..100usize {
        assert_eq!(r.create(j) as usize, j + 1);
    }
    for j in 0..100usize {
        assert_eq!(r.get(j as u32 + 1), Some(&j));
    }
    assert_eq!(r.get(0), None);
    assert_eq!(r.get(101), None);
}

#[test]
fn many_replies_before_read_are_joined_in_order() {
    let mut b = RecvBuffer::new();
    let msgs: Vec<Vec<u8>> = vec![vec![1], vec![], vec![2, 3], vec![4, 5, 6]];
    for m in msgs {
        assert_eq!(b.deliver(8, m), None);
    }
    assert_eq!(b.take(8), Some(vec![1, 2, 3, 4, 5, 6]));
    assert!(!b.waits(8));
}

#[test]
fn socket_joins_many_messages_after_first_read() {
    let mut s = SocketBuffer::new();
    s.on_message(2, vec![7]);
    s.on_message(2, vec![8]);
    assert_eq!(s.recv(2), Vec::<u8>::new());
    for m in [vec![1u8, 2], vec![], vec![3], vec![4, 5]] {
        s.on_message(2, m);
    }
    assert_eq!(s.recv(2), vec![1, 2, 3, 4, 5]);
}
