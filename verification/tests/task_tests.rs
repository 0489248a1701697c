use crossbeam_queue::ArrayQueue;
use futures_util::task::AtomicWaker;
use pc_keyboard::{KeyCode, KeyEvent, KeyState};
use radius_os::task::executor::{
    pushed_or_full, ready_task, Executor, PollStep, QueueFull, TaskWaker, READY_QUEUE_CAPACITY,
};
use radius_os::task::keyboard::{
    add_scancode, after_first_look, after_register, completed_event, delivery, keypress_text,
    new_scancode_queue, DecodedKey, Delivery, KeyDecoder, ScancodePoll, ScancodeSender,
    ScancodeStream, SCANCODE_QUEUE_CAPACITY,
};
use radius_os::task::{Task, TaskId};
use std::sync::atomic::{AtomicU64, AtomicUsize, Ordering};
use std::sync::Arc;
use std::task::{Wake, Waker};

struct CountingWaker {
    wakes: AtomicUsize,
}

impl Wake for CountingWaker {
    fn wake(self: Arc<Self>) {
        self.wakes.fetch_add(1, Ordering::SeqCst);
    }
}

fn counting_waker() -> (Arc<CountingWaker>, Waker) {
    let counter = Arc::new(CountingWaker { wakes: AtomicUsize::new(0) });
    (counter.clone(), Waker::from(counter))
}

fn deliver(sender: Option<&ScancodeSender>, slot: &AtomicWaker, scancode: u8) -> Delivery {
    let outcome = add_scancode(sender, scancode);
    if outcome == Delivery::Queued {
        slot.wake();
    }
    outcome
}

fn poll(stream: &mut ScancodeStream, slot: &AtomicWaker, waker: &Waker) -> ScancodePoll {
    if let Some(polled) = stream.poll_next() {
        return polled;
    }
    slot.register(waker);
    let (polled, take_back) = stream.poll_registered();
    if take_back {
        slot.take();
    }
    polled
}

fn run_step(executor: &mut Executor<&'static str>, id: TaskId) -> Option<(&'static str, bool)> {
    match executor.begin_poll(id) {
        PollStep::Stale => None,
        PollStep::Run { future, waker } => Some((future, waker.is_some())),
    }
}

#[test]
fn task_ids_come_from_the_counter() {
    let counter = AtomicU64::new(0);
    assert_eq!(TaskId::new(&counter), TaskId(0));
    assert_eq!(TaskId::new(&counter), TaskId(1));
    assert_eq!(TaskId::new(&counter), TaskId(2));
    assert_eq!(counter.load(Ordering::SeqCst), 3);
}

#[test]
fn task_new_draws_an_id_and_keeps_the_future() {
    let counter = AtomicU64::new(7);
    let task = Task::new(&counter, "work");
    assert_eq!(task.id(), TaskId(7));
    let other = Task::new(&counter, "more");
    assert_eq!(other.id(), TaskId(8));
    assert_eq!(task.into_parts(), (TaskId(7), "work"));
    assert_eq!(Task::with_id(TaskId(3), 5u8).into_parts(), (TaskId(3), 5u8));
}

#[test]
fn pushed_or_full_maps_the_push() {
    assert_eq!(pushed_or_full(Ok(())), Ok(()));
    assert_eq!(pushed_or_full(Err(9)), Err(QueueFull));
}

#[test]
fn new_executor_is_idle() {
    let mut executor: Executor<&'static str> = Executor::new();
    assert!(executor.is_idle());
    assert_eq!(executor.next_ready(), None);
    assert!(!executor.contains(TaskId(0)));
    assert!(executor.waker().is_none());
    assert!(run_step(&mut executor, TaskId(0)).is_none());
}

#[test]
fn spawned_tasks_become_ready_in_order() {
    let mut executor = Executor::new();
    assert_eq!(executor.spawn(Task::with_id(TaskId(5), "a")), Ok(()));
    assert_eq!(executor.spawn(Task::with_id(TaskId(2), "b")), Ok(()));
    assert_eq!(executor.spawn(Task::with_id(TaskId(9), "c")), Ok(()));
    assert!(!executor.is_idle());
    assert!(executor.contains(TaskId(2)));
    assert_eq!(executor.next_ready(), Some(TaskId(5)));
    assert_eq!(executor.next_ready(), Some(TaskId(2)));
    assert_eq!(executor.next_ready(), Some(TaskId(9)));
    assert_eq!(executor.next_ready(), None);
    assert!(executor.is_idle());
}

#[test]
fn task_that_finishes_is_forgotten_with_its_waker() {
    let mut executor = Executor::new();
    executor.spawn(Task::with_id(TaskId(1), "only")).unwrap();
    let id = executor.next_ready().unwrap();
    let (future, fresh) = run_step(&mut executor, id).unwrap();
    assert_eq!(future, "only");
    assert!(fresh);
    assert!(executor.contains(id));
    assert!(executor.waker().is_none());
    let (_, waker) = counting_waker();
    executor.cache_waker(waker);
    assert!(executor.waker().is_some());
    executor.end_poll(future, true);
    assert!(!executor.contains(id));
    assert!(executor.waker().is_none());
    assert!(run_step(&mut executor, id).is_none());
}

#[test]
fn pending_task_returns_and_reuses_its_waker() {
    let mut executor = Executor::new();
    executor.spawn(Task::with_id(TaskId(4), "first")).unwrap();
    let id = executor.next_ready().unwrap();
    let (_, fresh) = run_step(&mut executor, id).unwrap();
    assert!(fresh);
    let (_, waker) = counting_waker();
    executor.cache_waker(waker);
    executor.end_poll("second", false);
    assert!(executor.contains(id));
    assert_eq!(executor.next_ready(), None);
    let (future, fresh) = run_step(&mut executor, id).unwrap();
    assert_eq!(future, "second");
    assert!(!fresh);
    assert!(executor.waker().is_some());
    executor.end_poll(future, true);
    assert!(!executor.contains(id));
}

#[test]
fn wake_handle_puts_the_task_back_into_the_queue() {
    let mut executor = Executor::new();
    executor.spawn(Task::with_id(TaskId(6), "sleepy")).unwrap();
    let id = executor.next_ready().unwrap();
    let handle = match executor.begin_poll(id) {
        PollStep::Run { waker: Some(handle), .. } => handle,
        _ => panic!("a fresh wake handle was due"),
    };
    assert_eq!(handle.task_id(), TaskId(6));
    executor.end_poll("sleepy", false);
    assert!(executor.is_idle());
    assert_eq!(handle.wake_task(), Ok(()));
    assert_eq!(handle.wake_task(), Ok(()));
    assert!(!executor.is_idle());
    assert_eq!(executor.next_ready(), Some(TaskId(6)));
    assert_eq!(executor.next_ready(), Some(TaskId(6)));
    assert_eq!(executor.next_ready(), None);
}

#[test]
fn stale_wake_is_skipped() {
    let mut executor = Executor::new();
    executor.spawn(Task::with_id(TaskId(3), "short")).unwrap();
    let id = executor.next_ready().unwrap();
    let handle = match executor.begin_poll(id) {
        PollStep::Run { waker: Some(handle), .. } => handle,
        _ => panic!("a fresh wake handle was due"),
    };
    executor.end_poll("short", true);
    handle.wake_task().unwrap();
    let stale = executor.next_ready().unwrap();
    assert_eq!(stale, TaskId(3));
    assert!(run_step(&mut executor, stale).is_none());
    assert!(!executor.contains(stale));
}

#[test]
fn ready_queue_holds_one_hundred_ids() {
    assert_eq!(READY_QUEUE_CAPACITY, 100);
    let mut executor = Executor::new();
    for id in 0..100 {
        assert_eq!(executor.spawn(Task::with_id(TaskId(id), ())), Ok(()));
    }
    assert_eq!(executor.spawn(Task::with_id(TaskId(100), ())), Err(QueueFull));
    assert!(executor.contains(TaskId(100)));
    assert_eq!(executor.next_ready(), Some(TaskId(0)));
    let waker = TaskWaker::new(TaskId(100), Arc::new(ArrayQueue::new(1)));
    assert_eq!(waker.wake_task(), Ok(()));
    assert_eq!(waker.wake_task(), Err(QueueFull));
}

#[test]
fn delivery_names_what_became_of_a_scancode() {
    assert_eq!(delivery(Some(Ok(()))), Delivery::Queued);
    assert_eq!(delivery(Some(Err(0x1e))), Delivery::Dropped);
    assert_eq!(delivery(None), Delivery::NoQueue);
}

#[test]
fn after_register_decides_the_poll() {
    assert_eq!(after_register(Some(0x1e)), (ScancodePoll::Ready(0x1e), true));
    assert_eq!(after_register(None), (ScancodePoll::Pending, false));
}

#[test]
fn scancode_without_queue_is_dropped() {
    let slot = AtomicWaker::new();
    let (counter, waker) = counting_waker();
    slot.register(&waker);
    assert_eq!(deliver(None, &slot, 0x1e), Delivery::NoQueue);
    assert_eq!(add_scancode(None, 0x1e), Delivery::NoQueue);
    assert_eq!(counter.wakes.load(Ordering::SeqCst), 0);
    assert!(slot.take().is_some());
}

#[test]
fn scancodes_arrive_in_order_and_wake_the_reader() {
    let (sender, mut stream) = ScancodeStream::new();
    let slot = AtomicWaker::new();
    let (counter, waker) = counting_waker();
    assert_eq!(poll(&mut stream, &slot, &waker), ScancodePoll::Pending);
    assert_eq!(counter.wakes.load(Ordering::SeqCst), 0);
    assert_eq!(deliver(Some(&sender), &slot, 0x1e), Delivery::Queued);
    assert_eq!(counter.wakes.load(Ordering::SeqCst), 1);
    assert_eq!(deliver(Some(&sender), &slot, 0x9e), Delivery::Queued);
    assert_eq!(counter.wakes.load(Ordering::SeqCst), 1);
    assert_eq!(poll(&mut stream, &slot, &waker), ScancodePoll::Ready(0x1e));
    assert_eq!(poll(&mut stream, &slot, &waker), ScancodePoll::Ready(0x9e));
    assert_eq!(poll(&mut stream, &slot, &waker), ScancodePoll::Pending);
    assert!(slot.take().is_some());
}

#[test]
fn ready_poll_leaves_the_slot_alone() {
    let (sender, mut stream) = ScancodeStream::new();
    let slot = AtomicWaker::new();
    let (_, waker) = counting_waker();
    deliver(Some(&sender), &slot, 7);
    assert_eq!(poll(&mut stream, &slot, &waker), ScancodePoll::Ready(7));
    assert!(slot.take().is_none());
}

#[test]
fn full_scancode_queue_drops_silently() {
    assert_eq!(SCANCODE_QUEUE_CAPACITY, 100);
    let (sender, mut stream) = ScancodeStream::new();
    let slot = AtomicWaker::new();
    let (counter, waker) = counting_waker();
    for i in 0..100u8 {
        assert_eq!(deliver(Some(&sender), &slot, i), Delivery::Queued);
    }
    slot.register(&waker);
    assert_eq!(deliver(Some(&sender), &slot, 200), Delivery::Dropped);
    assert_eq!(counter.wakes.load(Ordering::SeqCst), 0);
    for i in 0..100u8 {
        assert_eq!(poll(&mut stream, &slot, &waker), ScancodePoll::Ready(i));
    }
    assert_eq!(poll(&mut stream, &slot, &waker), ScancodePoll::Pending);
}

#[test]
fn first_look_ends_the_poll_only_on_a_scancode() {
    let (sender, mut stream) = ScancodeStream::new();
    assert_eq!(stream.poll_next(), None);
    assert_eq!(add_scancode(Some(&sender), 0x10), Delivery::Queued);
    assert_eq!(add_scancode(Some(&sender), 0x11), Delivery::Queued);
    assert_eq!(stream.poll_next(), Some(ScancodePoll::Ready(0x10)));
    assert_eq!(stream.poll_registered(), (ScancodePoll::Ready(0x11), true));
    assert_eq!(stream.poll_registered(), (ScancodePoll::Pending, false));
    assert_eq!(stream.poll_next(), None);
}

#[test]
fn each_stream_reads_its_own_queue() {
    let (first_sender, mut first) = ScancodeStream::new();
    let (second_sender, mut second) = ScancodeStream::new();
    assert_eq!(add_scancode(Some(&first_sender), 1), Delivery::Queued);
    assert_eq!(add_scancode(Some(&second_sender), 2), Delivery::Queued);
    assert_eq!(second.poll_next(), Some(ScancodePoll::Ready(2)));
    assert_eq!(second.poll_next(), None);
    assert_eq!(first.poll_next(), Some(ScancodePoll::Ready(1)));
    assert_eq!(first.poll_next(), None);
}

#[test]
fn decoder_turns_scancodes_into_characters() {
    let mut decoder = KeyDecoder::new();
    assert!(matches!(decoder.decode(0x1e), Some(DecodedKey::Unicode('a'))));
    assert!(decoder.decode(0x9e).is_none());
    assert!(matches!(decoder.decode(0x02), Some(DecodedKey::Unicode('1'))));
    assert!(decoder.decode(0x2a).is_none());
    assert!(matches!(decoder.decode(0x1e), Some(DecodedKey::Unicode('A'))));
    assert!(decoder.decode(0xaa).is_none());
    assert!(matches!(decoder.decode(0x1e), Some(DecodedKey::Unicode('a'))));
}

#[test]
fn decoder_reports_raw_keys_and_extended_sequences() {
    let mut decoder = KeyDecoder::new();
    let f1 = decoder.decode(0x3b).unwrap();
    assert!(matches!(f1, DecodedKey::RawKey(_)));
    assert_eq!(keypress_text(&f1), "F1");
    assert!(decoder.decode(0xe0).is_none());
    let up = decoder.decode(0x48).unwrap();
    assert_eq!(keypress_text(&up), "ArrowUp");
}

#[test]
fn keypress_text_of_a_character_is_the_character() {
    assert_eq!(keypress_text(&DecodedKey::Unicode('x')), "x");
    assert_eq!(keypress_text(&DecodedKey::Unicode('\u{e9}')), "\u{e9}");
    assert_eq!(keypress_text(&DecodedKey::Unicode('\n')), "\n");
}

#[test]
fn ready_task_names_the_popped_identifier() {
    assert_eq!(ready_task(Some(17)), Some(TaskId(17)));
    assert_eq!(ready_task(Some(0)), Some(TaskId(0)));
    assert_eq!(ready_task(None), None);
}

#[test]
fn after_first_look_ends_the_poll_on_a_scancode() {
    assert_eq!(after_first_look(Some(0x1e)), Some(ScancodePoll::Ready(0x1e)));
    assert_eq!(after_first_look(None), None);
}

#[test]
fn completed_event_passes_only_whole_events() {
    let event = KeyEvent::new(KeyCode::A, KeyState::Down);
    assert_eq!(completed_event(Ok(Some(event.clone()))), Some(event));
    assert_eq!(completed_event(Ok(None)), None);
    assert_eq!(completed_event(Err(pc_keyboard::Error::UnknownKeyCode)), None);
}

#[test]
fn new_queues_have_their_capacity() {
    let queue = new_scancode_queue();
    assert_eq!(queue.capacity(), 100);
    assert!(queue.is_empty());
}

#[test]
fn second_poll_finds_the_waker_of_the_first() {
    let mut executor = Executor::new();
    executor.spawn(Task::with_id(TaskId(8), "waiting")).unwrap();
    executor.spawn(Task::with_id(TaskId(9), "other")).unwrap();
    let id = executor.next_ready().unwrap();
    assert!(run_step(&mut executor, id).unwrap().1);
    let (counter, waker) = counting_waker();
    let (_, stranger) = counting_waker();
    executor.cache_waker(waker.clone());
    assert!(executor.waker().unwrap().will_wake(&waker));
    assert!(!executor.waker().unwrap().will_wake(&stranger));
    executor.end_poll("waiting", false);

    let other = executor.next_ready().unwrap();
    assert_eq!(other, TaskId(9));
    assert!(run_step(&mut executor, other).unwrap().1);
    executor.cache_waker(stranger.clone());
    assert!(executor.waker().unwrap().will_wake(&stranger));
    executor.end_poll("other", true);

    assert!(!run_step(&mut executor, id).unwrap().1);
    assert!(executor.waker().unwrap().will_wake(&waker));
    executor.waker().unwrap().wake_by_ref();
    assert_eq!(counter.wakes.load(Ordering::SeqCst), 1);
    executor.end_poll("waiting", true);
    assert!(executor.waker().is_none());
}

#[test]
fn fresh_wake_handle_pushes_into_the_executors_queue() {
    let mut executor = Executor::new();
    executor.spawn(Task::with_id(TaskId(21), "a")).unwrap();
    assert_eq!(executor.next_ready(), Some(TaskId(21)));
    let handle = match executor.begin_poll(TaskId(21)) {
        PollStep::Run { waker: Some(handle), .. } => handle,
        _ => panic!("a fresh wake handle was due"),
    };
    executor.end_poll("a", false);
    assert!(executor.is_idle());
    assert_eq!(handle.wake_task(), Ok(()));
    assert_eq!(executor.next_ready(), Some(TaskId(21)));
    let elsewhere = Arc::new(ArrayQueue::new(2));
    let apart = TaskWaker::new(TaskId(21), elsewhere.clone());
    assert_eq!(apart.wake_task(), Ok(()));
    assert!(executor.is_idle());
    assert_eq!(elsewhere.pop().ok(), Some(21));
}

#[test]
fn raw_key_text_is_the_name_of_the_key() {
    assert_eq!(keypress_text(&DecodedKey::RawKey(KeyCode::Escape)), "Escape");
    assert_eq!(keypress_text(&DecodedKey::RawKey(KeyCode::F1)), format!("{:?}", KeyCode::F1));
    assert_eq!(keypress_text(&DecodedKey::RawKey(KeyCode::ArrowLeft)), "ArrowLeft");
}

#[test]
fn decoder_remembers_what_it_was_fed() {
    let mut plain = KeyDecoder::new();
    assert!(matches!(plain.decode(0x1e), Some(DecodedKey::Unicode('a'))));
    assert!(plain.decode(0x9e).is_none());
    let mut shifted = KeyDecoder::new();
    assert!(shifted.decode(0x2a).is_none());
    assert!(matches!(shifted.decode(0x1e), Some(DecodedKey::Unicode('A'))));
    assert!(shifted.decode(0xaa).is_none());
    assert!(matches!(shifted.decode(0x1e), Some(DecodedKey::Unicode('a'))));
    let mut extended = KeyDecoder::new();
    assert!(extended.decode(0xe0).is_none());
    assert!(matches!(extended.decode(0x48), Some(DecodedKey::RawKey(KeyCode::ArrowUp))));
    assert!(matches!(extended.decode(0x48), Some(DecodedKey::Unicode('8'))));
}
