use fluter::command::DrawCommand;
use fluter::command::format_px;
use fluter::cursor::Cursor;
use fluter::error::FbError;
use fluter::header::Header;
use fluter::pacing::{period_micros, Pacer};
use fluter::partition::partition;
use fluter::sendloop::{strip_alpha, SendLoop};

fn loop_for(header: &Header, workers: usize, which: usize) -> SendLoop {
    let cs = partition(header, workers).unwrap();
    SendLoop::new(&cs[which], header.width)
}

#[test]
fn strip_alpha_drops_low_byte() {
    assert_eq!(strip_alpha(0x123456FF), 0x123456);
    assert_eq!(strip_alpha(0x12345600), 0x123456);
    assert_eq!(strip_alpha(0x00000000), 0);
    assert_eq!(strip_alpha(0x000000FF), 0);
}

#[test]
fn format_px_writes_decimal_coordinates_and_six_hex_digits() {
    let cmd = DrawCommand {
        index: 0,
        x: 0,
        y: 0,
        color: 0x123456,
    };
    assert_eq!(format_px(&cmd), b"PX 0 0 123456\n");

    let cmd = DrawCommand {
        index: 3,
        x: 65535,
        y: 300,
        color: 0xF,
    };
    assert_eq!(format_px(&cmd), b"PX 65535 300 00000f\n");

    let cmd = DrawCommand {
        index: 9,
        x: 10,
        y: 2,
        color: 0xABCDEF,
    };
    assert_eq!(format_px(&cmd), b"PX 10 2 abcdef\n");
}

#[test]
fn cursor_advances_right_and_wraps_rows_by_width() {
    let c = Cursor { x: 2, y: 0 };
    assert_eq!(c.advance(4), Cursor { x: 3, y: 0 });
    assert_eq!(c.advance(4).advance(4), Cursor { x: 0, y: 1 });
}

#[test]
fn zero_cells_emit_nothing() {
    let h = Header {
        width: 4,
        height: 4,
    };
    let sl = loop_for(&h, 2, 0);
    let cells = vec![0u32; 9];
    assert!(sl.pending_commands(&cells).is_empty());
    // A raw value whose stripped color is zero is skipped too.
    let cells = vec![0x000000FFu32; 9];
    assert!(sl.pending_commands(&cells).is_empty());
}

#[test]
fn seeded_cell_round_trips_without_its_alpha_byte() {
    let h = Header {
        width: 4,
        height: 4,
    };
    // Chunk 1 of the 4x4 grid: 7 cells starting at (1, 2).
    let sl = loop_for(&h, 2, 1);
    assert_eq!((sl.start_x, sl.start_y, sl.chunk_len), (1, 2, 7));

    let i: usize = 5;
    let mut cells = vec![0u32; 7];
    cells[i] = 0xAABBCC << 8 | 0x7F;

    // The expected coordinate is the cursor value after `i` advances
    // from the chunk's start.
    let mut expect = Cursor {
        x: sl.start_x,
        y: sl.start_y,
    };
    for _ in 0..i {
        expect = expect.advance(h.width);
    }
    assert_eq!(expect, Cursor { x: 2, y: 3 });

    let cmds = sl.run_tick(&mut cells);
    assert_eq!(cmds.len(), 1);
    assert_eq!(
        cmds[0],
        DrawCommand {
            index: i,
            x: expect.x,
            y: expect.y,
            color: 0xAABBCC,
        }
    );
    assert_eq!(format_px(&cmds[0]), b"PX 2 3 aabbcc\n");
    // The emitted cell was cleared.
    assert_eq!(cells, vec![0u32; 7]);
}

#[test]
fn tick_clears_sent_cells_and_suppresses_the_next_tick() {
    let h = Header {
        width: 4,
        height: 4,
    };
    let sl = loop_for(&h, 2, 0);
    let mut cells = vec![0u32; 9];
    cells[0] = 0x11223344;
    cells[4] = 0xFFFFFF00;
    cells[8] = 0x000000AA; // stripped color zero: not sent, not cleared

    let cmds = sl.run_tick(&mut cells);
    assert_eq!(cmds.len(), 2);
    assert_eq!((cmds[0].index, cmds[0].color), (0, 0x112233));
    assert_eq!((cmds[1].index, cmds[1].color), (4, 0xFFFFFF));
    assert_eq!(cells[0], 0);
    assert_eq!(cells[4], 0);
    assert_eq!(cells[8], 0x000000AA);

    // The same unchanged memory emits no command on the next tick.
    let again = sl.run_tick(&mut cells);
    assert!(again.is_empty());
}

#[test]
fn commands_walk_the_chunk_in_cell_order() {
    let h = Header {
        width: 4,
        height: 4,
    };
    let sl = loop_for(&h, 2, 0);
    let cells: Vec<u32> = (0..9u32).map(|i| (i + 1) << 8).collect();
    let cmds = sl.pending_commands(&cells);
    assert_eq!(cmds.len(), 9);
    let mut cur = Cursor { x: 0, y: 0 };
    for (i, cmd) in cmds.iter().enumerate() {
        assert_eq!(cmd.index, i);
        assert_eq!((cmd.x, cmd.y), (cur.x, cur.y));
        assert_eq!(cmd.color, i as u32 + 1);
        cur = cur.advance(h.width);
    }
}

#[test]
fn write_failure_stops_one_loop_permanently_while_the_other_ticks() {
    let h = Header {
        width: 4,
        height: 4,
    };
    let mut sl0 = loop_for(&h, 2, 0);
    let mut sl1 = loop_for(&h, 2, 1);

    let mut cells0 = vec![0x01010100u32; 9];
    let mut cells1 = vec![0x02020200u32; 7];

    // Chunk 1's sink accepts two commands, then fails on the third.
    let cmds = sl1.pending_commands(&cells1);
    assert!(cmds.len() >= 3);
    for (k, cmd) in cmds.iter().enumerate() {
        if k < 2 {
            sl1.record_send(true);
            cells1[cmd.index] = 0;
        } else {
            sl1.record_send(false);
        }
        if !sl1.is_active() {
            break;
        }
    }
    assert!(!sl1.is_active());
    assert_eq!(sl1.failure, Some(FbError::SinkWriteFailed));
    // The cell whose send failed was not cleared.
    assert_eq!(cells1[2], 0x02020200);

    // A later success cannot revive the loop: it stays stopped.
    sl1.record_send(true);
    sl1.record_flush(true);
    assert!(!sl1.is_active());
    assert_eq!(sl1.failure, Some(FbError::SinkWriteFailed));

    // Chunk 0's loop keeps ticking on schedule, unaffected.
    for _ in 0..3 {
        assert!(sl0.is_active());
        let _ = sl0.run_tick(&mut cells0);
        sl0.record_flush(true);
    }
    assert!(sl0.is_active());
    assert_eq!(cells0, vec![0u32; 9]);
}

#[test]
fn flush_failure_stops_the_loop_with_its_own_error() {
    let h = Header {
        width: 4,
        height: 4,
    };
    let mut sl = loop_for(&h, 2, 0);
    sl.record_flush(false);
    assert!(!sl.is_active());
    assert_eq!(sl.failure, Some(FbError::SinkFlushFailed));
}

#[test]
fn connect_failure_stops_the_loop_before_any_tick() {
    let h = Header {
        width: 4,
        height: 4,
    };
    let mut sl = loop_for(&h, 2, 1);
    sl.record_connect(false);
    assert!(!sl.is_active());
    assert_eq!(sl.failure, Some(FbError::ConnectionFailed));
}

#[test]
fn period_is_one_second_over_the_frame_rate() {
    assert_eq!(period_micros(1), 1_000_000);
    assert_eq!(period_micros(30), 33_333);
    assert_eq!(period_micros(60), 16_666);
    assert_eq!(period_micros(1_000_000), 1);
}

#[test]
fn pacer_keeps_fixed_period_deadlines_without_drift() {
    let mut p = Pacer::new(1_000, 10);
    assert_eq!(p.period, 100_000);
    assert_eq!(p.deadline, 101_000);

    // A fast tick sleeps the remaining time.
    assert_eq!(p.sleep_micros(21_000), 80_000);
    // A slow tick that overruns the deadline catches up immediately.
    assert_eq!(p.sleep_micros(250_000), 0);

    // Deadlines advance by exactly one period each tick, whatever the
    // processing time was: after n ticks the deadline is base + n
    // periods.
    p.advance();
    p.advance();
    assert_eq!(p.deadline, 1_000 + 3 * 100_000);
}

#[test]
fn whole_pipeline_from_region_bytes_to_lines() {
    // A 2x2 framebuffer with a red pixel pending at cell 0 and a blue
    // one at cell 3.
    let region = [
        2u8, 0, 2, 0, // header
        0x00, 0x00, 0x00, 0xFF, // cell 0 = 0xFF000000
        0, 0, 0, 0, // cell 1
        0, 0, 0, 0, // cell 2
        0x00, 0xFF, 0x00, 0x00, // cell 3 = 0x0000FF00
    ];
    let header = fluter::header::parse_header(&region).unwrap();
    assert_eq!((header.width, header.height), (2, 2));
    fluter::header::validate_region_len(region.len(), &header).unwrap();
    let mut cells = fluter::header::decode_cells(&region, &header).unwrap();

    let chunks = partition(&header, 1).unwrap();
    assert_eq!(chunks.len(), 1);
    let sl = SendLoop::new(&chunks[0], header.width);

    let cmds = sl.run_tick(&mut cells);
    let mut out: Vec<u8> = Vec::new();
    for cmd in &cmds {
        out.extend_from_slice(&format_px(cmd));
    }
    assert_eq!(out, b"PX 0 0 ff0000\nPX 1 1 0000ff\n".to_vec());
    assert_eq!(cells, vec![0u32; 4]);
}
