use janu_flow::link;
use janu_flow::{LinkReceiver, LinkSender, ZFError};
use std::sync::Arc;

fn same_task_simple() {
    let size = 2;
    let send_id: String = "0".into();
    let recv_id: String = "10".into();
    let (sender, receiver) = link::<u8>(Some(size), send_id, recv_id);

    let mut d: u8 = 0;
    // Add the first element
    let res = sender.send(Arc::new(d));
    assert_eq!(res, Ok(()));
    let res = receiver.recv();
    assert_eq!(res, Ok(("10".into(), Arc::new(0u8))));

    // Add the second element
    d += 1;
    let res = sender.send(Arc::new(d));
    assert_eq!(res, Ok(()));
    let res = receiver.recv();
    assert_eq!(res, Ok(("10".into(), Arc::new(1u8))));
}

fn recv_task_simple(receiver: LinkReceiver<u8>) {
    let res = receiver.recv();
    assert_eq!(res, Ok(("10".into(), Arc::new(0u8))));

    let res = receiver.recv();
    assert_eq!(res, Ok(("10".into(), Arc::new(1u8))));

    let res = receiver.recv();
    assert_eq!(res, Ok(("10".into(), Arc::new(2u8))));
}

fn send_task_simple(sender: LinkSender<u8>) {
    let mut d: u8 = 0;
    // Add the first element
    let res = sender.send(Arc::new(d));
    assert_eq!(res, Ok(()));
    // Add the second element
    d += 1;
    let res = sender.send(Arc::new(d));
    assert_eq!(res, Ok(()));

    // Add the 3rd element
    d += 1;
    let res = sender.send(Arc::new(d));
    assert_eq!(res, Ok(()));
}

fn recv_task_more(receiver: LinkReceiver<u8>) {
    for n in 0u8..255u8 {
        let res = receiver.recv();
        assert_eq!(res, Ok(("10".into(), Arc::new(n))));
    }
}

fn send_task_more(sender: LinkSender<u8>) {
    for n in 0u8..255u8 {
        let res = sender.send(Arc::new(n));
        assert_eq!(res, Ok(()));
    }
}

#[test]
fn ordered_fifo_simple_async() {
    same_task_simple()
}

#[test]
fn ordered_fifo_simple_two_task_async() {
    let size = 2;
    let send_id: String = "0".into();
    let recv_id: String = "10".into();
    let (sender, receiver) = link::<u8>(Some(size), send_id, recv_id);

    let h1 = async_std::task::spawn_blocking(move || send_task_simple(sender));

    let h2 = async_std::task::spawn_blocking(move || recv_task_simple(receiver));

    async_std::task::block_on(async move {
        h1.await;
        h2.await;
    })
}

#[test]
fn ordered_fifo_more_two_task_async() {
    let size = 20;
    let send_id: String = "0".into();
    let recv_id: String = "10".into();
    let (sender, receiver) = link::<u8>(Some(size), send_id, recv_id);

    let h1 = async_std::task::spawn_blocking(move || send_task_more(sender));

    let h2 = async_std::task::spawn_blocking(move || recv_task_more(receiver));

    async_std::task::block_on(async move {
        h1.await;
        h2.await;
    })
}

#[test]
fn try_recv_tells_empty_from_disconnected() {
    let (sender, receiver) = link::<u8>(None, "out".into(), "in".into());
    assert_eq!(receiver.try_recv(), Err(ZFError::Empty));
    assert_eq!(sender.send(Arc::new(7)), Ok(()));
    assert_eq!(receiver.try_recv(), Ok(("in".into(), Arc::new(7u8))));
    drop(sender);
    assert_eq!(receiver.try_recv(), Err(ZFError::Disconnected));
    assert_eq!(
        receiver.recv(),
        Err(ZFError::RecvError("Disconnected".into()))
    );
}

#[test]
fn send_fails_once_the_receiver_is_gone() {
    let (sender, receiver) = link::<u8>(Some(1), "out".into(), "in".into());
    assert!(!sender.is_disconnected());
    drop(receiver);
    assert!(sender.is_disconnected());
    assert_eq!(
        sender.send(Arc::new(1)),
        Err(ZFError::SendError("\"SendError(..)\"".into()))
    );
}

#[test]
fn link_ends_carry_their_port_names() {
    let (sender, receiver) = link::<u8>(None, "out".into(), "in".into());
    assert_eq!(sender.id(), "out".to_string());
    assert_eq!(receiver.id(), "in".to_string());
    let twin = sender.clone();
    assert_eq!(twin.id(), "out".to_string());
    assert_eq!(twin.send(Arc::new(3)), Ok(()));
    assert_eq!(receiver.recv(), Ok(("in".into(), Arc::new(3u8))));
}

#[test]
fn bounded_link_holds_back_the_sender_until_a_receive() {
    // A link of capacity 2 takes two items without a receiver at work.
    let (sender, receiver) = link::<u8>(Some(2), "out".into(), "in".into());
    assert_eq!(sender.send(Arc::new(0)), Ok(()));
    assert_eq!(sender.send(Arc::new(1)), Ok(()));
    assert!(sender.sender.is_full());

    // The third send has to wait.
    let third = sender.clone();
    let waiting = async_std::task::spawn_blocking(move || third.send(Arc::new(2)));
    async_std::task::block_on(async_std::task::sleep(std::time::Duration::from_millis(200)));
    assert_eq!(sender.sender.len(), 2);

    // One receive lets it through.
    assert_eq!(receiver.recv(), Ok(("in".into(), Arc::new(0u8))));
    assert_eq!(async_std::task::block_on(waiting), Ok(()));
    assert_eq!(receiver.recv(), Ok(("in".into(), Arc::new(1u8))));
    assert_eq!(receiver.recv(), Ok(("in".into(), Arc::new(2u8))));
}

#[test]
fn a_link_is_made_with_the_bound_asked_for() {
    for bound in [1usize, 2, 7, 1024] {
        let (sender, receiver) = link::<u8>(Some(bound), "out".into(), "in".into());
        assert_eq!(sender.sender.capacity(), Some(bound));
        assert_eq!(receiver.receiver.capacity(), Some(bound));
        assert_eq!(sender.clone().sender.capacity(), Some(bound));
        for i in 0..bound {
            assert!(!sender.sender.is_full());
            assert_eq!(sender.send(Arc::new((i % 256) as u8)), Ok(()));
        }
        assert!(sender.sender.is_full());
        assert_eq!(receiver.receiver.len(), bound);
    }
    let (sender, receiver) = link::<u8>(None, "out".into(), "in".into());
    assert_eq!(sender.sender.capacity(), None);
    assert_eq!(receiver.receiver.capacity(), None);
    for i in 0..5000usize {
        assert_eq!(sender.send(Arc::new((i % 256) as u8)), Ok(()));
    }
    assert!(!sender.sender.is_full());
    assert_eq!(receiver.receiver.len(), 5000);
}

#[test]
fn closing_the_last_sender_wakes_the_receiver() {
    let (sender, receiver) = link::<u8>(None, "out".into(), "in".into());
    let waiting = async_std::task::spawn_blocking(move || receiver.recv());
    async_std::task::block_on(async_std::task::sleep(std::time::Duration::from_millis(100)));
    drop(sender);
    assert_eq!(
        async_std::task::block_on(waiting),
        Err(ZFError::RecvError("Disconnected".into()))
    );
}

#[test]
fn outcomes_of_the_queue_are_passed_on() {
    let (sender, receiver) = link::<u8>(None, "out".into(), "in".into());
    assert_eq!(
        receiver.delivered(Ok(Arc::new(4))),
        Ok(("in".to_string(), Arc::new(4u8)))
    );
    assert_eq!(
        receiver.delivered(Err("gone".into())),
        Err(ZFError::RecvError("gone".into()))
    );
    assert_eq!(LinkSender::<u8>::sent(Ok(())), Ok(()));
    assert_eq!(
        LinkSender::<u8>::sent(Err("closed".into())),
        Err(ZFError::SendError("closed".into()))
    );
    drop(sender);
}
