use nes_runtime::pointer::WindowSize;
use nes_runtime::scheduler::{
    Next, Pacing, Scheduler, BATCH, BEHIND_TOLERANCE, NANOS_PER_SEC, UPDATES_PER_STEP,
};
use nes_runtime::screen::{ButtonName, Buttons, Color, Frame, Message, Screen, ScreenWriter};
use nes_runtime::{Cpu, Mirroring, Ppu, CPU_FREQ};

const WINDOW: WindowSize = WindowSize { width: 256, height: 240 };

/// A picture unit that records what it is handed, and draws and publishes
/// on request.
struct Recorder {
    mirroring: Mirroring,
    buttons: Buttons,
    buttons_at_update: Vec<Buttons>,
    pointed: Vec<Color>,
    updates: u64,
    paint: Option<(usize, usize, Color)>,
}

impl Ppu for Recorder {
    fn new(mirroring: Mirroring) -> Self {
        Recorder {
            mirroring,
            buttons: Buttons::default(),
            buttons_at_update: Vec::new(),
            pointed: Vec::new(),
            updates: 0,
            paint: None,
        }
    }

    fn set_buttons(&mut self, buttons: Buttons) {
        self.buttons = buttons;
    }

    fn update<C>(&mut self, _cpu: &mut C, writer: &mut ScreenWriter)
    where
        C: Cpu<Ppu = Self>,
    {
        self.updates += 1;
        self.buttons_at_update.push(self.buttons);
        if let Some((x, y, color)) = self.paint {
            let shade = Color(color.0, color.1, self.updates as u8);
            writer.draw_pixel(x, y, shade);
            writer.render_frame();
        }
    }

    fn set_pointed_pixel(&mut self, color: Color) {
        self.pointed.push(color);
    }
}

/// A processor that succeeds `good` times and fails from then on.
struct Stepper {
    ticks: u64,
    good: u64,
    updates_seen: u64,
}

impl Stepper {
    fn sound() -> Self {
        Stepper { ticks: 0, good: u64::MAX, updates_seen: 0 }
    }

    fn failing_after(good: u64) -> Self {
        Stepper { ticks: 0, good, updates_seen: 0 }
    }
}

impl Cpu for Stepper {
    type TickError = String;
    type Ppu = Recorder;

    fn tick(&mut self, ppu: &mut Recorder) -> Result<(), String> {
        self.updates_seen = ppu.updates;
        if self.ticks >= self.good {
            return Err(format!("halted after {} steps", self.ticks));
        }
        self.ticks += 1;
        Ok(())
    }
}

fn take_steps(
    scheduler: &mut Scheduler,
    cpu: &mut Stepper,
    ppu: &mut Recorder,
    writer: &mut ScreenWriter,
    count: u64,
) -> Next {
    let mut last = Next::Step;
    for _ in 0..count {
        last = scheduler.step(cpu, ppu, writer).expect("the step succeeds");
    }
    last
}

#[test]
fn constants_of_the_schedule() {
    assert_eq!(BATCH, 1000);
    assert_eq!(UPDATES_PER_STEP, 3);
    assert_eq!(BEHIND_TOLERANCE, 200_000_000);
    assert_eq!(NANOS_PER_SEC, 1_000_000_000);
    assert_eq!(CPU_FREQ, 1_789_773);
}

#[test]
fn a_new_scheduler_has_done_nothing() {
    let scheduler = Scheduler::new(Some(5000), 42);
    assert_eq!(scheduler.steps(), 0);
    assert_eq!(scheduler.updates(), 0);
    assert_eq!(scheduler.cycles(), 0);
    assert_eq!(scheduler.busy(), 0);
    assert_eq!(scheduler.last_tick(), 42);
    assert!(!scheduler.is_paused());
    assert!(!scheduler.is_finished());
    assert_eq!(scheduler.buttons(), Buttons::default());
    assert_eq!(scheduler.pointer(), (0, 0));
    assert_eq!(scheduler.pointed_pixel(), Color(0, 0, 0));
}

#[test]
fn buttons_hold_the_latest_value_sent_for_each() {
    let mut scheduler = Scheduler::new(None, 0);
    let msgs = vec![
        Message::Button(ButtonName::A1, true),
        Message::Button(ButtonName::B1, true),
        Message::Button(ButtonName::A1, false),
        Message::PixelPointed(3, 4),
        Message::Button(ButtonName::Up2, true),
        Message::Button(ButtonName::Up2, false),
        Message::Button(ButtonName::Up2, true),
    ];
    scheduler.receive_all(&msgs, WINDOW, 0);
    let mut expected = Buttons::default();
    expected.b1 = true;
    expected.up2 = true;
    assert_eq!(scheduler.buttons(), expected);
    scheduler.receive_all(&vec![Message::Button(ButtonName::Select1, true)], WINDOW, 0);
    expected.select1 = true;
    assert_eq!(scheduler.buttons(), expected);
    scheduler.receive_all(&Vec::new(), WINDOW, 0);
    assert_eq!(scheduler.buttons(), expected);
}

#[test]
fn receive_all_is_receive_message_by_message() {
    let msgs = vec![
        Message::Button(ButtonName::Right1, true),
        Message::Pause(true),
        Message::PixelPointed(300, 10),
        Message::Button(ButtonName::Right1, false),
        Message::Button(ButtonName::Start2, true),
    ];
    let mut together = Scheduler::new(Some(10), 5);
    together.receive_all(&msgs, WINDOW, 9);
    let mut apart = Scheduler::new(Some(10), 5);
    for msg in &msgs {
        apart.receive(*msg, WINDOW, 9);
    }
    assert_eq!(together.buttons(), apart.buttons());
    assert_eq!(together.pointer(), apart.pointer());
    assert_eq!(together.is_paused(), apart.is_paused());
    assert_eq!(together.last_tick(), apart.last_tick());
    assert_eq!(together.pointer(), (255, 10));
    assert!(together.is_paused());
    assert!(together.buttons().start2);
    assert!(!together.buttons().right1);
}

#[test]
fn the_picture_unit_sees_the_buttons_of_the_step() {
    let mut scheduler = Scheduler::new(None, 0);
    let mut cpu = Stepper::sound();
    let mut ppu = Recorder::new(Mirroring::Vertical);
    let (_, mut writer) = Screen::dummy();
    scheduler.receive(Message::Button(ButtonName::A1, true), WINDOW, 0);
    scheduler.receive(Message::Button(ButtonName::Left2, true), WINDOW, 0);
    scheduler.receive(Message::Button(ButtonName::A1, false), WINDOW, 0);
    scheduler.step(&mut cpu, &mut ppu, &mut writer).expect("the step succeeds");
    let mut expected = Buttons::default();
    expected.left2 = true;
    assert_eq!(ppu.buttons_at_update, vec![expected, expected, expected]);
    scheduler.receive(Message::Button(ButtonName::Left2, false), WINDOW, 0);
    scheduler.receive(Message::Button(ButtonName::Start1, true), WINDOW, 0);
    scheduler.step(&mut cpu, &mut ppu, &mut writer).expect("the step succeeds");
    let mut then = Buttons::default();
    then.start1 = true;
    assert_eq!(ppu.buttons_at_update[3..], [then, then, then]);
    assert_eq!(scheduler.buttons(), then);
}

#[test]
fn a_pointer_message_moves_the_pointer() {
    let mut scheduler = Scheduler::new(None, 0);
    scheduler.receive(Message::PixelPointed(128, 120), WINDOW, 0);
    assert_eq!(scheduler.pointer(), (128, 120));
    scheduler.receive(Message::PixelPointed(300, 10), WINDOW, 0);
    assert_eq!(scheduler.pointer(), (255, 10));
    scheduler.receive(Message::PixelPointed(0, 0), WINDOW, 0);
    assert_eq!(scheduler.pointer(), (0, 0));
    scheduler.receive(Message::PixelPointed(256, 240), WindowSize { width: 512, height: 480 }, 0);
    assert_eq!(scheduler.pointer(), (128, 120));
}

#[test]
fn a_step_is_one_tick_and_three_updates() {
    let mut scheduler = Scheduler::new(None, 0);
    let mut cpu = Stepper::sound();
    let mut ppu = Recorder::new(Mirroring::Horizontal);
    let (_, mut writer) = Screen::dummy();
    assert_eq!(scheduler.step(&mut cpu, &mut ppu, &mut writer), Ok(Next::Step));
    assert_eq!(cpu.ticks, 1);
    assert_eq!(ppu.updates, 3);
    assert_eq!(scheduler.steps(), 1);
    assert_eq!(scheduler.updates(), 3);
    assert_eq!(scheduler.step(&mut cpu, &mut ppu, &mut writer), Ok(Next::Step));
    assert_eq!(cpu.ticks, 2);
    assert_eq!(cpu.updates_seen, 3);
    assert_eq!(ppu.updates, 6);
    assert!(ppu.pointed.is_empty());
    assert_eq!(ppu.mirroring, Mirroring::Horizontal);
}

#[test]
fn a_batch_ends_after_a_thousand_steps() {
    let mut scheduler = Scheduler::new(Some(5000), 0);
    let mut cpu = Stepper::sound();
    let mut ppu = Recorder::new(Mirroring::Horizontal);
    let (_, mut writer) = Screen::dummy();
    assert_eq!(take_steps(&mut scheduler, &mut cpu, &mut ppu, &mut writer, 999), Next::Step);
    assert_eq!(scheduler.cycles(), 0);
    assert_eq!(take_steps(&mut scheduler, &mut cpu, &mut ppu, &mut writer, 1), Next::Pace);
    assert_eq!(scheduler.cycles(), 1000);
    assert_eq!(take_steps(&mut scheduler, &mut cpu, &mut ppu, &mut writer, 1), Next::Step);
    assert_eq!(scheduler.steps(), 1001);
    assert_eq!(scheduler.cycles(), 1000);
    assert_eq!(take_steps(&mut scheduler, &mut cpu, &mut ppu, &mut writer, 999), Next::Pace);
    assert_eq!(scheduler.cycles(), 2000);
}

#[test]
fn the_run_is_over_at_the_first_batch_end_above_the_limit() {
    let mut scheduler = Scheduler::new(Some(5000), 0);
    let mut cpu = Stepper::sound();
    let mut ppu = Recorder::new(Mirroring::Horizontal);
    let (_, mut writer) = Screen::dummy();
    assert_eq!(take_steps(&mut scheduler, &mut cpu, &mut ppu, &mut writer, 5000), Next::Pace);
    assert!(!scheduler.is_finished());
    assert_eq!(take_steps(&mut scheduler, &mut cpu, &mut ppu, &mut writer, 1), Next::Step);
    assert!(!scheduler.is_finished());
    assert_eq!(take_steps(&mut scheduler, &mut cpu, &mut ppu, &mut writer, 999), Next::Finished);
    assert!(scheduler.is_finished());
    assert_eq!(scheduler.steps(), 6000);
    assert_eq!(scheduler.updates(), 18000);
    assert_eq!(cpu.ticks, 6000);
    assert_eq!(ppu.updates, 18000);
}

#[test]
fn a_finished_scheduler_steps_no_more() {
    let mut scheduler = Scheduler::new(Some(0), 0);
    let mut cpu = Stepper::sound();
    let mut ppu = Recorder::new(Mirroring::Horizontal);
    let (_, mut writer) = Screen::dummy();
    assert_eq!(take_steps(&mut scheduler, &mut cpu, &mut ppu, &mut writer, 1000), Next::Finished);
    assert_eq!(scheduler.step(&mut cpu, &mut ppu, &mut writer), Ok(Next::Finished));
    assert_eq!(scheduler.steps(), 1000);
    assert_eq!(cpu.ticks, 1000);
    assert_eq!(ppu.updates, 3000);
}

#[test]
fn a_failed_step_is_not_counted_and_has_no_update() {
    let mut scheduler = Scheduler::new(None, 0);
    let mut cpu = Stepper::failing_after(2);
    let mut ppu = Recorder::new(Mirroring::Horizontal);
    let (_, mut writer) = Screen::dummy();
    assert_eq!(scheduler.step(&mut cpu, &mut ppu, &mut writer), Ok(Next::Step));
    assert_eq!(scheduler.step(&mut cpu, &mut ppu, &mut writer), Ok(Next::Step));
    assert_eq!(
        scheduler.step(&mut cpu, &mut ppu, &mut writer),
        Err("halted after 2 steps".to_string())
    );
    assert_eq!(scheduler.steps(), 2);
    assert_eq!(scheduler.updates(), 6);
    assert_eq!(ppu.updates, 6);
}

#[test]
fn a_suspended_scheduler_waits_for_a_message() {
    let mut scheduler = Scheduler::new(None, 0);
    let mut cpu = Stepper::sound();
    let mut ppu = Recorder::new(Mirroring::Horizontal);
    let (_, mut writer) = Screen::dummy();
    scheduler.receive(Message::Pause(true), WINDOW, 10);
    assert!(scheduler.is_paused());
    assert_eq!(scheduler.step(&mut cpu, &mut ppu, &mut writer), Ok(Next::Await));
    assert_eq!(cpu.ticks, 0);
    assert_eq!(ppu.updates, 0);
    scheduler.receive(Message::Pause(true), WINDOW, 20);
    scheduler.receive(Message::Button(ButtonName::B2, true), WINDOW, 30);
    assert!(scheduler.is_paused());
    assert!(scheduler.buttons().b2);
    assert_eq!(scheduler.step(&mut cpu, &mut ppu, &mut writer), Ok(Next::Await));
    scheduler.receive(Message::Pause(false), WINDOW, 40);
    assert!(!scheduler.is_paused());
    assert_eq!(scheduler.step(&mut cpu, &mut ppu, &mut writer), Ok(Next::Step));
    assert_eq!(cpu.ticks, 1);
}

#[test]
fn a_pause_is_not_counted_as_busy_time() {
    let mut scheduler = Scheduler::new(None, 1_000);
    assert_eq!(scheduler.pace(3_000), Pacing::OnTime);
    assert_eq!(scheduler.busy(), 2_000);
    scheduler.receive(Message::Pause(true), WINDOW, 4_000);
    assert_eq!(scheduler.busy(), 2_000);
    assert_eq!(scheduler.last_tick(), 3_000);
    scheduler.receive(Message::Button(ButtonName::A1, true), WINDOW, 2_000_000_000);
    scheduler.receive(Message::Pause(false), WINDOW, 5_000_000_000);
    assert_eq!(scheduler.busy(), 2_000);
    assert_eq!(scheduler.last_tick(), 5_000_000_000);
    assert_eq!(scheduler.pace(5_000_000_500), Pacing::OnTime);
    assert_eq!(scheduler.busy(), 2_500);
    assert_eq!(scheduler.last_tick(), 5_000_000_500);
}

#[test]
fn resuming_what_is_not_suspended_leaves_the_clock() {
    let mut scheduler = Scheduler::new(None, 1_000);
    scheduler.receive(Message::Pause(false), WINDOW, 9_000);
    assert_eq!(scheduler.last_tick(), 1_000);
    assert_eq!(scheduler.pace(10_000), Pacing::OnTime);
    assert_eq!(scheduler.busy(), 9_000);
}

#[test]
fn ahead_of_the_clock_the_scheduler_asks_for_sleep() {
    let mut scheduler = Scheduler::new(None, 0);
    let mut cpu = Stepper::sound();
    let mut ppu = Recorder::new(Mirroring::Horizontal);
    let (_, mut writer) = Screen::dummy();
    assert_eq!(take_steps(&mut scheduler, &mut cpu, &mut ppu, &mut writer, 1000), Next::Pace);
    // A thousand cycles at 1 789 773 Hz take 558 730 ns.
    assert_eq!(scheduler.pace(100_000), Pacing::Sleep(458_730));
    assert_eq!(scheduler.busy(), 100_000);
    assert_eq!(scheduler.last_tick(), 100_000);
    assert_eq!(take_steps(&mut scheduler, &mut cpu, &mut ppu, &mut writer, 1000), Next::Pace);
    // Two thousand take 1 117 460 ns; the sleep and the batch took 500 000.
    assert_eq!(scheduler.pace(600_000), Pacing::Sleep(517_460));
    assert_eq!(scheduler.busy(), 600_000);
}

#[test]
fn pacing_goes_by_complete_batches() {
    let mut scheduler = Scheduler::new(None, 0);
    let mut cpu = Stepper::sound();
    let mut ppu = Recorder::new(Mirroring::Horizontal);
    let (_, mut writer) = Screen::dummy();
    take_steps(&mut scheduler, &mut cpu, &mut ppu, &mut writer, 1999);
    assert_eq!(scheduler.pace(0), Pacing::Sleep(558_730));
}

#[test]
fn behind_by_more_than_the_tolerance_the_scheduler_says_so() {
    let mut scheduler = Scheduler::new(None, 0);
    let mut cpu = Stepper::sound();
    let mut ppu = Recorder::new(Mirroring::Horizontal);
    let (_, mut writer) = Screen::dummy();
    take_steps(&mut scheduler, &mut cpu, &mut ppu, &mut writer, 1000);
    assert_eq!(scheduler.pace(558_730), Pacing::OnTime);
    assert_eq!(scheduler.pace(558_730 + 200_000_000), Pacing::OnTime);
    assert_eq!(scheduler.pace(558_730 + 200_000_001), Pacing::Behind(200_000_001));
    assert_eq!(scheduler.pace(558_729), Pacing::Behind(200_000_001));
    assert_eq!(scheduler.busy(), 558_730 + 200_000_001);
    assert_eq!(scheduler.steps(), 1000);
}

#[test]
fn a_clock_reading_before_the_last_counts_as_equal_to_it() {
    let mut scheduler = Scheduler::new(None, 1_000);
    assert_eq!(scheduler.pace(500), Pacing::OnTime);
    assert_eq!(scheduler.busy(), 0);
    assert_eq!(scheduler.last_tick(), 1_000);
    scheduler.receive(Message::Pause(true), WINDOW, 0);
    scheduler.receive(Message::Pause(false), WINDOW, 10);
    assert_eq!(scheduler.last_tick(), 1_000);
}

#[test]
fn the_colour_under_the_pointer_is_sampled_from_what_is_shown() {
    let mut frame = Frame::blank();
    frame.put(5, 7, Color(11, 22, 33));
    let mut writer = Screen::new(frame);
    let mut scheduler = Scheduler::new(None, 0);
    scheduler.receive(Message::PixelPointed(5, 7), WINDOW, 0);
    assert_eq!(scheduler.sample(&writer), Some(Color(11, 22, 33)));
    assert_eq!(scheduler.pointed_pixel(), Color(11, 22, 33));
    writer.draw_pixel(5, 7, Color(1, 2, 3));
    assert_eq!(scheduler.sample(&writer), Some(Color(11, 22, 33)));
    writer.render_frame();
    assert_eq!(scheduler.sample(&writer), Some(Color(1, 2, 3)));
    assert_eq!(scheduler.pointed_pixel(), Color(1, 2, 3));
    scheduler.receive(Message::PixelPointed(6, 7), WINDOW, 0);
    assert_eq!(scheduler.sample(&writer), Some(Color(0, 0, 0)));
}

#[test]
fn without_a_picture_nothing_is_sampled() {
    let (_, writer) = Screen::dummy();
    let mut scheduler = Scheduler::new(None, 0);
    assert_eq!(scheduler.sample(&writer), None);
    assert_eq!(scheduler.pointed_pixel(), Color(0, 0, 0));
}

#[test]
fn each_update_is_followed_by_a_sample_for_the_picture_unit() {
    let mut writer = Screen::new(Frame::blank());
    let mut scheduler = Scheduler::new(None, 0);
    let mut cpu = Stepper::sound();
    let mut ppu = Recorder::new(Mirroring::Horizontal);
    ppu.paint = Some((5, 7, Color(11, 22, 0)));
    scheduler.receive(Message::PixelPointed(5, 7), WINDOW, 0);
    scheduler.step(&mut cpu, &mut ppu, &mut writer).expect("the step succeeds");
    assert_eq!(ppu.pointed, vec![Color(11, 22, 1), Color(11, 22, 2), Color(11, 22, 3)]);
    assert_eq!(scheduler.pointed_pixel(), Color(11, 22, 3));
    assert!(writer.collect().is_some());
}

#[test]
fn run_takes_the_steps_that_are_left() {
    let mut scheduler = Scheduler::new(Some(2500), 0);
    let mut cpu = Stepper::sound();
    let mut ppu = Recorder::new(Mirroring::Horizontal);
    let (_, mut writer) = Screen::dummy();
    take_steps(&mut scheduler, &mut cpu, &mut ppu, &mut writer, 1234);
    assert_eq!(scheduler.run(&mut cpu, &mut ppu, &mut writer, &Vec::new()).1, Ok(()));
    assert_eq!(scheduler.steps(), 3000);
    assert!(scheduler.is_finished());
    assert_eq!(cpu.ticks, 3000);
    assert_eq!(ppu.updates, 9000);
    assert_eq!(scheduler.run(&mut cpu, &mut ppu, &mut writer, &Vec::new()).1, Ok(()));
    assert_eq!(cpu.ticks, 3000);
}

#[test]
fn run_stops_at_the_step_that_fails() {
    let mut scheduler = Scheduler::new(Some(5000), 0);
    let mut cpu = Stepper::failing_after(1500);
    let mut ppu = Recorder::new(Mirroring::Horizontal);
    let (_, mut writer) = Screen::dummy();
    assert_eq!(
        scheduler.run(&mut cpu, &mut ppu, &mut writer, &Vec::new()).1,
        Err("halted after 1500 steps".to_string())
    );
    assert_eq!(scheduler.steps(), 1500);
    assert_eq!(scheduler.updates(), 4500);
    assert_eq!(ppu.updates, 4500);
    assert!(!scheduler.is_finished());
}

#[test]
fn run_of_a_suspended_scheduler_takes_no_step() {
    let mut scheduler = Scheduler::new(Some(5000), 0);
    let mut cpu = Stepper::sound();
    let mut ppu = Recorder::new(Mirroring::Horizontal);
    let (_, mut writer) = Screen::dummy();
    scheduler.receive(Message::Pause(true), WINDOW, 0);
    assert_eq!(scheduler.run(&mut cpu, &mut ppu, &mut writer, &Vec::new()).1, Ok(()));
    assert_eq!(scheduler.steps(), 0);
    assert_eq!(cpu.ticks, 0);
}

#[test]
fn a_run_without_readings_asks_for_the_whole_expected_time() {
    let mut scheduler = Scheduler::new(Some(2500), 0);
    let mut cpu = Stepper::sound();
    let mut ppu = Recorder::new(Mirroring::Horizontal);
    let (_, mut writer) = Screen::dummy();
    let (pacings, outcome) = scheduler.run(&mut cpu, &mut ppu, &mut writer, &Vec::new());
    assert_eq!(outcome, Ok(()));
    assert_eq!(pacings, vec![Pacing::Sleep(558_730), Pacing::Sleep(1_117_460)]);
    assert_eq!(scheduler.steps(), 3000);
    assert_eq!(scheduler.busy(), 0);
    assert_eq!(scheduler.last_tick(), 0);
}

#[test]
fn a_run_against_a_clock_paces_at_each_batch_end_but_the_last() {
    let mut scheduler = Scheduler::new(Some(5000), 0);
    let mut cpu = Stepper::sound();
    let mut ppu = Recorder::new(Mirroring::Horizontal);
    let (_, mut writer) = Screen::dummy();
    // Each batch takes 100 000 ns, and each sleep lasts as long as asked:
    // every batch begins when its cycles are due.
    let readings = vec![
        100_000,
        558_730 + 100_000,
        1_117_460 + 100_000,
        1_676_190 + 100_000,
        2_234_920 + 100_000,
    ];
    let (pacings, outcome) = scheduler.run(&mut cpu, &mut ppu, &mut writer, &readings);
    assert_eq!(outcome, Ok(()));
    assert_eq!(pacings, vec![Pacing::Sleep(458_730); 5]);
    assert_eq!(scheduler.steps(), 6000);
    assert_eq!(scheduler.last_tick(), 2_334_920);
    assert_eq!(scheduler.busy(), 2_334_920);
    // The sixth batch begins no sooner than five thousand cycles take.
    assert_eq!(scheduler.last_tick() + 458_730, 2_793_650);
}

#[test]
fn a_run_against_a_slow_clock_says_when_it_is_behind() {
    let mut scheduler = Scheduler::new(Some(3000), 0);
    let mut cpu = Stepper::sound();
    let mut ppu = Recorder::new(Mirroring::Horizontal);
    let (_, mut writer) = Screen::dummy();
    let readings = vec![558_730, 1_117_460 + 200_000_000, 1_676_190 + 200_000_001];
    let (pacings, outcome) = scheduler.run(&mut cpu, &mut ppu, &mut writer, &readings);
    assert_eq!(outcome, Ok(()));
    assert_eq!(pacings, vec![Pacing::OnTime, Pacing::OnTime, Pacing::Behind(200_000_001)]);
    assert_eq!(scheduler.steps(), 4000);
}

#[test]
fn where_the_readings_run_out_the_clock_stands_still() {
    let mut scheduler = Scheduler::new(Some(2500), 0);
    let mut cpu = Stepper::sound();
    let mut ppu = Recorder::new(Mirroring::Horizontal);
    let (_, mut writer) = Screen::dummy();
    let readings = vec![400_000];
    let (pacings, outcome) = scheduler.run(&mut cpu, &mut ppu, &mut writer, &readings);
    assert_eq!(outcome, Ok(()));
    assert_eq!(pacings, vec![Pacing::Sleep(158_730), Pacing::Sleep(717_460)]);
    assert_eq!(scheduler.last_tick(), 400_000);
    assert_eq!(scheduler.busy(), 400_000);
}

#[test]
fn a_run_that_fails_has_paced_the_batches_it_completed() {
    let mut scheduler = Scheduler::new(Some(5000), 0);
    let mut cpu = Stepper::failing_after(2000);
    let mut ppu = Recorder::new(Mirroring::Horizontal);
    let (_, mut writer) = Screen::dummy();
    let readings = vec![600_000, 1_200_000, 1_800_000];
    let (pacings, outcome) = scheduler.run(&mut cpu, &mut ppu, &mut writer, &readings);
    assert_eq!(outcome, Err("halted after 2000 steps".to_string()));
    assert_eq!(pacings, vec![Pacing::OnTime, Pacing::OnTime]);
    assert_eq!(scheduler.steps(), 2000);
    assert_eq!(scheduler.last_tick(), 1_200_000);
}
