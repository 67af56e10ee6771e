use webos::framebuffer::{EarlyBuf, FbConsole};
use webos::aplic::{init as aplic_init, RegWrite, SourceMode};
use webos::error::Error;
use webos::imsic::{enable_msg, init_hart, topei_message, CsrOp, EIDELIVERY, EITHRESHOLD};
use webos::memlayout::{APLIC_M, APLIC_S};
use webos::test::QemuExitCode;
use webos::trap::{kerneltrap, usertrap, TrapCause, UserTrap};
use webos::vma::FaultKind;
use webos::trap::{devintr_kind, irq_target, kernel_should_yield, user_should_yield, Interrupt, Intr, IrqTarget};
use webos::virtio_gpu::{
    gpu_init_begin, gpu_init_step, Gpu, GpuInitAction, GpuInitEvent, GpuInitState, PixelFormat, FORMAT_B8G8R8A8_UNORM,
    FORMAT_B8G8R8X8_UNORM, FORMAT_R8G8B8X8_UNORM, RESP_OK_DISPLAY_INFO, RESP_OK_NODATA, VIRTIO_ID_GPU,
};
use webos::virtio_input::{
    cursor_rect, flush_area, rel_delta, sat_add_signed, InputEvent, Kbd, Mouse, Wheel, EV_KEY, EV_REL,
    REL_WHEEL, REL_X, REL_Y,
};
use webos::virtio_net::{NetDevice, SendStep, UsedElem};

fn key(code: u16, value: u32) -> InputEvent {
    InputEvent { type_: EV_KEY, code, value }
}

fn ready_kbd() -> Kbd {
    let mut k = Kbd::new_uninit();
    k.queue.init(Some(32));
    k
}

#[test]
fn key_to_ascii_follows_shift_and_caps() {
    let mut k = ready_kbd();
    assert_eq!(k.key_to_ascii(30), Some(b'a'));
    assert_eq!(k.key_to_ascii(2), Some(b'1'));
    k.mods.shift = true;
    assert_eq!(k.key_to_ascii(30), Some(b'A'));
    assert_eq!(k.key_to_ascii(2), Some(b'!'));
    k.mods.caps = true;
    assert_eq!(k.key_to_ascii(30), Some(b'a'));
    assert_eq!(k.key_to_ascii(2), Some(b'!'));
    assert_eq!(k.key_to_ascii(200), None);
    assert!(Kbd::is_letter_key(44));
    assert!(!Kbd::is_letter_key(57));
}

#[test]
fn modifiers_and_escape_sequences() {
    let mut k = ready_kbd();
    assert!(k.handle_event(key(42, 1)).is_empty());
    assert_eq!(k.handle_event(key(30, 1)), b"A".to_vec());
    assert!(k.handle_event(key(42, 0)).is_empty());
    assert_eq!(k.handle_event(key(103, 1)), b"\x1b[A".to_vec());
    assert_eq!(k.handle_event(key(88, 2)), b"\x1b[24~".to_vec());
    assert!(k.handle_event(key(30, 0)).is_empty());
    assert!(k.handle_event(key(29, 1)).is_empty());
    assert_eq!(k.handle_event(key(46, 1)), vec![3u8]);
    assert!(k.handle_event(key(29, 0)).is_empty());
    assert!(k.handle_event(key(56, 1)).is_empty());
    assert_eq!(k.handle_event(key(48, 1)), vec![0x1b, b'b']);
    assert!(k.handle_event(key(58, 1)).is_empty());
    assert!(k.mods.caps);
    assert!(k.handle_event(key(58, 0)).is_empty());
    assert!(k.mods.caps);
}

#[test]
fn keyboard_interrupt_drains_and_recycles() {
    let mut k = ready_kbd();
    let events = vec![key(35, 1), key(35, 0), key(23, 1)];
    let used_ids: Vec<u32> = (0..32u32).map(|i| i % 3).collect();
    let out = k.intr(3, &used_ids, &events);
    assert_eq!(out, Some(b"hi".to_vec()));
    assert_eq!(k.queue.used_idx, 3);
    assert_eq!(k.queue.avail_idx, 35);
    assert_eq!(k.queue.avail_ring[0], 0);
    assert_eq!(k.queue.avail_ring[1], 1);
    assert_eq!(k.queue.avail_ring[2], 2);
    let mut cold = Kbd::new_uninit();
    // a device not yet set up asks to be set up first
    assert_eq!(cold.intr(3, &used_ids, &events), None);
}

#[test]
fn mouse_moves_and_wheels() {
    let mut m = Mouse::new_uninit();
    m.queue.init(Some(8));
    let events = vec![
        InputEvent { type_: EV_REL, code: REL_X, value: 10 },
        InputEvent { type_: EV_REL, code: REL_Y, value: (-3i32) as u32 },
        InputEvent { type_: EV_REL, code: REL_WHEEL, value: (-1i32) as u32 },
    ];
    let used_ids: Vec<u32> = vec![0, 1, 2, 0, 0, 0, 0, 0];
    assert!(Mouse::new_uninit().intr(3, &used_ids, &events).is_none());
    let work = m.intr(3, &used_ids, &events).unwrap();
    assert!(work.moved);
    assert_eq!(m.x, 10);
    assert_eq!(m.y, 0);
    assert_eq!(work.wheels, vec![Wheel { delta: -1, x: 10, y: 0 }]);
}

#[test]
fn signed_deltas_saturate() {
    assert_eq!(rel_delta(5), 5);
    assert_eq!(rel_delta(0xffff_ffff), -1);
    assert_eq!(rel_delta(0x8000_0000), -2147483648);
    assert_eq!(sat_add_signed(3, -5), 0);
    assert_eq!(sat_add_signed(usize::MAX - 1, 5), usize::MAX);
    assert_eq!(sat_add_signed(3, 4), 7);
}

#[test]
fn cursor_rectangle_is_clipped() {
    assert_eq!(cursor_rect(100, 50, 640, 480), (98, 48, 16, 16));
    assert_eq!(cursor_rect(0, 1, 640, 480), (0, 0, 16, 16));
    assert_eq!(cursor_rect(639, 479, 640, 480), (637, 477, 3, 3));
    assert_eq!(flush_area(None, (1, 2, 3, 4)), (1, 2, 3, 4));
    assert_eq!(flush_area(Some((10, 10, 16, 16)), (20, 5, 16, 16)), (10, 5, 26, 21));
}

#[test]
fn net_send_uses_lowest_free_buffer() {
    let mut d = NetDevice::new([1, 2, 3, 4, 5, 6]);
    assert_eq!(d.mac_addr(), [1, 2, 3, 4, 5, 6]);
    assert_eq!(d.try_send_frame(&[9, 8, 7]), Ok(SendStep::Queued(0)));
    let mut expect = vec![0u8; 10];
    expect.extend_from_slice(&[9, 8, 7]);
    assert_eq!(d.tx_bufs[0], expect);
    assert_eq!(d.tx_avail_ring[0], 0);
    assert_eq!(d.tx_avail_idx, 1);
    assert_eq!(d.send_frame(&[1]), Ok(SendStep::Queued(1)));
    let big = vec![0u8; 2049];
    assert_eq!(d.try_send_frame(&big), Err(Error::InvalidArgument));
    for _ in 2..8 {
        assert!(matches!(d.try_send_frame(&[1]), Ok(SendStep::Queued(_))));
    }
    assert_eq!(d.try_send_frame(&[1]), Err(Error::WouldBlock));
    assert_eq!(d.send_frame(&[1]), Ok(SendStep::Block));
    let used_ids = vec![5u32, 2, 0, 0, 0, 0, 0, 0];
    d.handle_tx(2, &used_ids);
    assert_eq!(d.tx_used_idx, 2);
    assert!(d.tx_free[5] && d.tx_free[2] && !d.tx_free[0]);
    assert_eq!(d.try_send_frame(&[1]), Ok(SendStep::Queued(2)));
}

#[test]
fn net_receive_strips_header_and_recycles() {
    let mut d = NetDevice::new([0; 6]);
    let mut bufs: Vec<Vec<u8>> = vec![vec![0u8; 2058]; 8];
    for (i, b) in bufs[3].iter_mut().enumerate() {
        *b = i as u8;
    }
    let mut used = vec![UsedElem { id: 0, len: 0 }; 8];
    used[0] = UsedElem { id: 3, len: 14 };
    used[1] = UsedElem { id: 4, len: 5 };
    let frames = d.collect_rx(2, &used, &bufs);
    assert_eq!(frames, vec![vec![10u8, 11, 12, 13]]);
    assert_eq!(d.rx_used_idx, 2);
    assert_eq!(d.rx_avail_idx, 10);
    assert_eq!(d.rx_avail_ring[0], 3);
    assert_eq!(d.rx_avail_ring[1], 4);
}

#[test]
fn interrupt_controller_setup() {
    let ws = aplic_init();
    assert_eq!(ws.len(), 18);
    assert_eq!(ws[0], RegWrite { addr: APLIC_M, value: 0x104 });
    assert_eq!(ws[1], RegWrite { addr: APLIC_S, value: 0x104 });
    assert_eq!(ws[2], RegWrite { addr: APLIC_M + 0x1BC0, value: 0x24000 });
    assert_eq!(ws[3], RegWrite { addr: APLIC_M + 0x1BC4, value: 0x3000 });
    assert_eq!(ws[4], RegWrite { addr: APLIC_M + 0x1BC8, value: 0x28000 });
    assert_eq!(ws[6], RegWrite { addr: APLIC_M + 4 + 9 * 4, value: 0x400 });
    assert_eq!(ws[9], RegWrite { addr: APLIC_S + 0x3004 + 9 * 4, value: 10 });
    assert_eq!(ws[10], RegWrite { addr: APLIC_S + 4 + 9 * 4, value: 6 });
    assert_eq!(ws[11], RegWrite { addr: APLIC_S + 0x1E00, value: 1 << 10 });
    assert_eq!(SourceMode::LevelLow.code(), 7);
    assert_eq!(SourceMode::Detached.code(), 1);
}

#[test]
fn interrupt_file_setup() {
    let ops = init_hart();
    assert_eq!(ops[0], CsrOp::Write { sel: EIDELIVERY, value: 1 });
    assert_eq!(ops[1], CsrOp::Write { sel: EITHRESHOLD, value: 0 });
    assert_eq!(ops[2], CsrOp::SetBits { sel: 0xC0, mask: 1 << 10 });
    assert_eq!(enable_msg(100), CsrOp::SetBits { sel: 0xC2, mask: 1 << 36 });
    assert_eq!(topei_message(0x000a_000a), 10);
}

#[test]
fn trap_decisions() {
    assert_eq!(devintr_kind(Interrupt::SupervisorExternal), Some(Intr::Device));
    assert_eq!(devintr_kind(Interrupt::SupervisorSoft), Some(Intr::Timer));
    assert_eq!(devintr_kind(Interrupt::SupervisorTimer), None);
    assert_eq!(irq_target(10), IrqTarget::Uart);
    assert_eq!(irq_target(1), IrqTarget::Disk);
    assert_eq!(irq_target(2), IrqTarget::Unexpected);
    assert!(user_should_yield(Some(Intr::Timer), false));
    assert!(user_should_yield(Some(Intr::Device), true));
    assert!(!user_should_yield(Some(Intr::Device), false));
    assert!(kernel_should_yield(Some(Intr::Timer), true));
    assert!(!kernel_should_yield(Some(Intr::Timer), false));
    assert!(!kernel_should_yield(None, true));
}

#[test]
fn emulator_exit_codes() {
    assert_eq!(QemuExitCode::Success.code(), 0x5555);
    assert_eq!(QemuExitCode::Failed.code(), 0x3333);
}

#[test]
fn pixel_packing() {
    assert_eq!(PixelFormat::Bgrx8888.pack_rgba(0x11, 0x22, 0x33, 0xff), 0xff11_2233);
    assert_eq!(PixelFormat::Rgbx8888.pack_rgba(0x11, 0x22, 0x33, 0xff), 0xff33_2211);
}

#[test]
fn framebuffer_is_writable_once_set_up() {
    let mut g = webos::virtio_gpu::Gpu::new_uninit();
    assert!(g.fb_mut().is_none());
    g.attach(4, 2, webos::virtio_gpu::PixelFormat::Bgrx8888);
    {
        let px = g.fb_mut().unwrap();
        assert_eq!(px.len(), 8);
        px[3] = 0x00ff_00ff;
    }
    assert_eq!(g.fb[3], 0x00ff_00ff);
}

#[test]
fn user_traps_are_dispatched_by_cause() {
    assert_eq!(usertrap(TrapCause::UserEnvCall, false, 0x1000, 0, 0), UserTrap::Syscall { epc: 0x1004 });
    assert_eq!(usertrap(TrapCause::UserEnvCall, true, 0x1000, 0, 0), UserTrap::Exit);
    assert_eq!(usertrap(TrapCause::StorePageFault, false, 0, 0x800, 0x1000), UserTrap::Cow { va: 0x800 });
    assert_eq!(
        usertrap(TrapCause::StorePageFault, false, 0, 0x2000, 0x1000),
        UserTrap::PageFault { va: 0x2000, kind: FaultKind::Store }
    );
    assert_eq!(
        usertrap(TrapCause::LoadPageFault, false, 0, 0x10, 0x1000),
        UserTrap::PageFault { va: 0x10, kind: FaultKind::Load }
    );
    assert_eq!(usertrap(TrapCause::Interrupt(Interrupt::SupervisorSoft), false, 0, 0, 0), UserTrap::Device(Intr::Timer));
    assert_eq!(usertrap(TrapCause::Interrupt(Interrupt::Other), false, 0, 0, 0), UserTrap::Kill);
    assert_eq!(usertrap(TrapCause::OtherException, false, 0, 0, 0), UserTrap::Kill);
    assert_eq!(kerneltrap(TrapCause::Interrupt(Interrupt::SupervisorExternal)), Some(Intr::Device));
    assert_eq!(kerneltrap(TrapCause::LoadPageFault), None);
}

#[test]
fn console_rows_are_drawn_from_the_text_buffer() {
    let mut g = webos::virtio_gpu::Gpu::new_uninit();
    g.attach(100, 60, PixelFormat::Bgrx8888);
    let mut c = FbConsole::new();
    let mut font = vec![[0u8; 8]; 128];
    font[b'A' as usize] = [0xff; 8];
    c.set_font(font);
    let mut early = EarlyBuf::new();
    c.init(&mut g, &mut early);
    assert!(c.inited);
    c.write(&mut g, &mut early, b"A");
    let bg = g.fb[0];
    let fg = g.fb[2 * 100 + 2];
    assert_ne!(fg, bg);
    for p in g.fb.iter_mut() {
        *p = 7;
    }
    c.redraw_from_buffer(&mut g);
    assert_eq!(g.fb[2 * 100 + 2], fg);
    assert_eq!(g.fb[2 * 100 + 2 + 16], bg);
    assert_eq!(g.fb[0], bg);
    for p in g.fb.iter_mut() {
        *p = 7;
    }
    c.draw_line_row(&mut g, 0, c.line_base);
    assert_eq!(g.fb[2 * 100 + 2], fg);
    assert_eq!(g.fb[2 * 100 + 20], bg);
    assert_eq!(g.fb[40 * 100], 7);
}

#[test]
fn mouse_cursor_is_drawn_saved_and_restored() {
    let mut g = Gpu::new_uninit();
    let mut m = Mouse::new_uninit();
    // before the display is set up nothing happens
    m.draw_cursor(&mut g);
    assert!(!m.cursor_drawn);
    assert!(g.flushes.is_empty());

    g.attach(40, 30, PixelFormat::Bgrx8888);
    for i in 0..g.fb.len() {
        g.fb[i] = i as u32;
    }
    let dim = 0xff00_5a18u32;
    let main = 0xff00_ff40u32;
    m.x = 10;
    m.y = 10;
    m.draw_cursor(&mut g);
    assert!(m.cursor_drawn);
    assert_eq!((m.cursor_ox, m.cursor_oy, m.cursor_w, m.cursor_h), (8, 8, 16, 16));
    // top-left pixel of the arrow is outline, the one below it too
    assert_eq!(g.fb[8 * 40 + 8], dim);
    assert_eq!(g.fb[9 * 40 + 8], dim);
    // row 2, column 1 is inside the arrow
    assert_eq!(g.fb[10 * 40 + 9], main);
    // row 0, column 1 is see-through
    assert_eq!(g.fb[8 * 40 + 9], (8 * 40 + 9) as u32);
    // the block holds what was under the cursor
    assert_eq!(m.cursor_under[0], (8 * 40 + 8) as u32);
    assert_eq!(m.cursor_under[2 * 16 + 1], (10 * 40 + 9) as u32);
    assert_eq!(g.flushes.last(), Some(&(8, 8, 16, 16)));

    // moving the cursor puts the old pixels back and flushes both areas
    m.x = 20;
    m.y = 20;
    m.draw_cursor(&mut g);
    assert_eq!((m.cursor_ox, m.cursor_oy, m.cursor_w, m.cursor_h), (18, 18, 16, 12));
    assert_eq!(g.fb[8 * 40 + 8], (8 * 40 + 8) as u32);
    assert_eq!(g.fb[10 * 40 + 9], (10 * 40 + 9) as u32);
    assert_eq!(g.fb[18 * 40 + 18], dim);
    assert_eq!(g.flushes.last(), Some(&(8, 8, 26, 22)));

    // erasing restores the display and forgets the cursor
    m.erase_cursor(&mut g);
    assert!(!m.cursor_drawn);
    assert_eq!(g.fb[18 * 40 + 18], (18 * 40 + 18) as u32);
    assert_eq!(g.flushes.last(), Some(&(18, 18, 16, 12)));
    for i in 0..g.fb.len() {
        assert_eq!(g.fb[i], i as u32);
    }
}

#[test]
fn gpu_bring_up_walks_through_the_device_handshake() {
    assert_eq!(gpu_init_begin(true), None);
    let (s, a) = gpu_init_begin(false).unwrap();
    assert_eq!(a, GpuInitAction::ReadIdentity);
    let (s, a) = gpu_init_step(s, GpuInitEvent::Identity { magic: 0x7472_6976, version: 2, vendor: 0x554d_4551, device: VIRTIO_ID_GPU });
    assert_eq!((s, a), (GpuInitState::Negotiating, GpuInitAction::Negotiate));
    let (s, a) = gpu_init_step(s, GpuInitEvent::StatusRead { status: 0b1011 });
    assert_eq!((s, a), (GpuInitState::CheckingQueue, GpuInitAction::ReadQueue));
    let (s, a) = gpu_init_step(s, GpuInitEvent::QueueLimits { ready: 0, max: 64 });
    assert_eq!((s, a), (GpuInitState::AskingDisplay, GpuInitAction::StartQueue));
    // a scanout of no area falls back to 640 by 480
    let (s, a) = gpu_init_step(
        s,
        GpuInitEvent::DisplayInfo { resp_type: Some(RESP_OK_DISPLAY_INFO), enabled: 1, width: 0, height: 600 },
    );
    assert_eq!(a, GpuInitAction::CreateResource { width: 640, height: 480, format: FORMAT_B8G8R8X8_UNORM });
    // the first format is refused, the second taken
    let (s, a) = gpu_init_step(s, GpuInitEvent::Reply { resp_type: Some(0x1200) });
    assert_eq!(a, GpuInitAction::CreateResource { width: 640, height: 480, format: FORMAT_R8G8B8X8_UNORM });
    let (s, a) = gpu_init_step(s, GpuInitEvent::Reply { resp_type: Some(RESP_OK_NODATA) });
    assert_eq!(a, GpuInitAction::AttachBacking);
    let (s, a) = gpu_init_step(s, GpuInitEvent::Reply { resp_type: Some(RESP_OK_NODATA) });
    assert_eq!(a, GpuInitAction::SetScanout);
    let (s, a) = gpu_init_step(s, GpuInitEvent::Reply { resp_type: Some(RESP_OK_NODATA) });
    let fin = GpuInitAction::Finish { width: 640, height: 480, fmt: PixelFormat::Rgbx8888 };
    assert_eq!(a, fin);
    assert_eq!(s, GpuInitState::Ready { width: 640, height: 480, fmt: PixelFormat::Rgbx8888 });
    // a finished bring-up ignores further events
    assert_eq!(gpu_init_step(s, GpuInitEvent::Reply { resp_type: None }), (s, GpuInitAction::Nothing));
}

#[test]
fn gpu_bring_up_fails_where_the_device_does_not_cooperate() {
    let fail = (GpuInitState::Failed, GpuInitAction::Fail);
    let wrong_id = GpuInitEvent::Identity { magic: 0x7472_6976, version: 1, vendor: 0x554d_4551, device: VIRTIO_ID_GPU };
    assert_eq!(gpu_init_step(GpuInitState::Probing, wrong_id), fail);
    assert_eq!(gpu_init_step(GpuInitState::Negotiating, GpuInitEvent::StatusRead { status: 0b0011 }), fail);
    assert_eq!(gpu_init_step(GpuInitState::CheckingQueue, GpuInitEvent::QueueLimits { ready: 1, max: 64 }), fail);
    assert_eq!(gpu_init_step(GpuInitState::CheckingQueue, GpuInitEvent::QueueLimits { ready: 0, max: 7 }), fail);
    assert_eq!(gpu_init_step(GpuInitState::CheckingQueue, GpuInitEvent::QueueLimits { ready: 0, max: 0 }), fail);
    // a reported size is used as it is
    let (_, a) = gpu_init_step(
        GpuInitState::AskingDisplay,
        GpuInitEvent::DisplayInfo { resp_type: Some(RESP_OK_DISPLAY_INFO), enabled: 1, width: 800, height: 600 },
    );
    assert_eq!(a, GpuInitAction::CreateResource { width: 800, height: 600, format: FORMAT_B8G8R8X8_UNORM });
    // every format refused
    let mut s = GpuInitState::Creating { width: 800, height: 600, tried: 0 };
    let (s1, a1) = gpu_init_step(s, GpuInitEvent::Reply { resp_type: None });
    assert_eq!(a1, GpuInitAction::CreateResource { width: 800, height: 600, format: FORMAT_R8G8B8X8_UNORM });
    s = s1;
    let (s2, a2) = gpu_init_step(s, GpuInitEvent::Reply { resp_type: None });
    assert_eq!(a2, GpuInitAction::CreateResource { width: 800, height: 600, format: FORMAT_B8G8R8A8_UNORM });
    assert_eq!(gpu_init_step(s2, GpuInitEvent::Reply { resp_type: None }), fail);
    // the last format, taken, is B8G8R8A8
    let (s3, _) = gpu_init_step(s2, GpuInitEvent::Reply { resp_type: Some(RESP_OK_NODATA) });
    assert_eq!(s3, GpuInitState::Attaching { width: 800, height: 600, fmt: PixelFormat::Bgra8888 });
    // attach or scanout refused
    assert_eq!(gpu_init_step(s3, GpuInitEvent::Reply { resp_type: Some(0x1203) }), fail);
    let sc = GpuInitState::SettingScanout { width: 800, height: 600, fmt: PixelFormat::Bgra8888 };
    assert_eq!(gpu_init_step(sc, GpuInitEvent::Reply { resp_type: None }), fail);
}

#[test]
fn console_comes_up_on_a_cleared_screen() {
    let mut g = Gpu::new_uninit();
    g.attach(100, 60, PixelFormat::Bgrx8888);
    for p in g.fb.iter_mut() {
        *p = 5;
    }
    let mut c = FbConsole::new();
    let mut early = EarlyBuf::new();
    c.init(&mut g, &mut early);
    assert!(c.inited);
    assert!(g.fb.iter().all(|p| *p == 0xff00_0000));
    assert_eq!((c.cursor_line, c.cursor_col, c.view_offset), (0, 0, 0));
    assert!(c.lines.iter().all(|l| l.iter().all(|b| *b == b' ')));
}

#[test]
fn escape_sequences_move_the_cursor_before_the_console_is_up() {
    let mut c = FbConsole { cols: 80, cursor_col: 20, ..FbConsole::new() };
    let mut g = Gpu::new_uninit();
    for b in [0x1bu8, b'[', b'1', b'2'] {
        assert!(c.handle_ansi_locked(&mut g, b));
    }
    assert!(c.handle_ansi_locked(&mut g, b'D'));
    assert_eq!(c.cursor_col, 8);
    assert_eq!(c.x, 130);
    assert!(!c.esc && !c.csi && c.csi_num == 0 && !c.csi_have_num);
    for b in [0x1bu8, b'[', b'3', b'C'] {
        assert!(c.handle_ansi_locked(&mut g, b));
    }
    assert_eq!(c.cursor_col, 11);
    assert_eq!(c.x, 2 + 11 * 16);
    // ESC[0D leaves the cursor where it is
    for b in [0x1bu8, b'[', b'0', b'D'] {
        assert!(c.handle_ansi_locked(&mut g, b));
    }
    assert_eq!((c.cursor_col, c.x), (11, 2 + 11 * 16));
    assert!(!c.handle_ansi_locked(&mut g, b'a'));
}

#[test]
fn a_character_past_the_last_column_goes_to_a_new_line() {
    let mut g = Gpu::new_uninit();
    g.attach(101, 60, PixelFormat::Bgrx8888);
    let mut c = FbConsole::new();
    let mut early = EarlyBuf::new();
    c.init(&mut g, &mut early);
    let cols = c.cols;
    for _ in 0..cols {
        c.putc_locked(&mut g, b'x');
    }
    assert_eq!(c.cursor_col, cols);
    let line = c.cursor_line;
    c.putc_locked(&mut g, 0x01);
    assert_eq!(c.cursor_line, line + 1);
    assert_eq!(c.cursor_col, 1);
    let li = c.cursor_line % c.max_lines;
    assert_eq!(c.lines[li][0], b'?');
}
