use releash::protocol::{PtyOutputMsg, WsMessage};
use releash::shell_integration::{strip_osc_cmd_done, OscFilter};
use releash::ws_bridge::{PtyOutputRing, WsBroadcaster, PTY_OUTPUT_BUFFER_SIZE};

#[test]
fn test_strip_no_osc() {
    let result = strip_osc_cmd_done("hello world\n");
    assert_eq!(result.filtered_output, "hello world\n");
    assert!(result.cmd_done_exit_codes.is_empty());
}

#[test]
fn test_strip_single_cmd_done() {
    let data = "output\x1b]777;cmd_done;0\x07prompt$ ";
    let result = strip_osc_cmd_done(data);
    assert_eq!(result.filtered_output, "outputprompt$ ");
    assert_eq!(result.cmd_done_exit_codes, vec![0]);
}

#[test]
fn test_strip_nonzero_exit_code() {
    let data = "error\x1b]777;cmd_done;1\x07$ ";
    let result = strip_osc_cmd_done(data);
    assert_eq!(result.filtered_output, "error$ ");
    assert_eq!(result.cmd_done_exit_codes, vec![1]);
}

#[test]
fn test_strip_multiple_cmd_done() {
    let data = "a\x1b]777;cmd_done;0\x07b\x1b]777;cmd_done;127\x07c";
    let result = strip_osc_cmd_done(data);
    assert_eq!(result.filtered_output, "abc");
    assert_eq!(result.cmd_done_exit_codes, vec![0, 127]);
}

#[test]
fn test_strip_preserves_other_osc() {
    let data = "text\x1b]0;title\x07more";
    let result = strip_osc_cmd_done(data);
    assert_eq!(result.filtered_output, "text\x1b]0;title\x07more");
    assert!(result.cmd_done_exit_codes.is_empty());
}

#[test]
fn test_strip_negative_exit_code() {
    let data = "\x1b]777;cmd_done;-1\x07";
    let result = strip_osc_cmd_done(data);
    assert_eq!(result.filtered_output, "");
    assert_eq!(result.cmd_done_exit_codes, vec![-1]);
}

#[test]
fn split_sequence_across_chunks_filters_like_the_whole() {
    let joined = "before\x1b]777;cmd_done;42\x07after";
    let whole = strip_osc_cmd_done(joined);

    let mut filter = OscFilter::new();
    let (out1, codes1) = filter.feed("before\x1b]777;cmd");
    let (out2, codes2) = filter.feed("_done;42\x07after");
    let tail = filter.flush();

    let mut chunked = String::new();
    chunked.push_str(&out1);
    chunked.push_str(&out2);
    chunked.push_str(&tail);

    assert_eq!(chunked, whole.filtered_output);
    let mut codes = codes1;
    codes.extend(codes2);
    assert_eq!(codes, whole.cmd_done_exit_codes);
    assert_eq!(chunked, "beforeafter");
    assert_eq!(whole.cmd_done_exit_codes, vec![42]);
}

#[test]
fn incomplete_sequence_stays_pending_until_flush() {
    let mut filter = OscFilter::new();
    let (out, codes) = filter.feed("x\x1b]777;cmd_done;1");
    assert_eq!(out, "x");
    assert!(codes.is_empty());
    let tail = filter.flush();
    assert_eq!(tail, "\x1b]777;cmd_done;1");
}

#[test]
fn utf8_prefix_waits_for_split_characters() {
    // the two bytes of a split character stay pending until completed
    let part = [b'h', b'e', 0xc3];
    let (head, rest) = releash::pty::utf8_prefix(&part);
    assert_eq!(head, "he");
    assert_eq!(rest, vec![0xc3]);
    let mut pending = rest;
    pending.push(0xa9);
    let (head2, rest2) = releash::pty::utf8_prefix(&pending);
    assert_eq!(head2, "\u{e9}");
    assert!(rest2.is_empty());
}

#[test]
fn ring_keeps_only_the_last_64_kib() {
    let mut ring = PtyOutputRing::new();
    let first = vec![b'a'; 40000];
    let second = vec![b'b'; 40000];
    ring.append(&first);
    ring.append(&second);
    let contents = ring.contents();
    assert_eq!(contents.len(), PTY_OUTPUT_BUFFER_SIZE);
    let mut expected = Vec::new();
    expected.extend(vec![b'a'; 80000 - PTY_OUTPUT_BUFFER_SIZE]);
    let mut tail = expected.len();
    tail = 40000 - tail;
    assert_eq!(&contents[..tail], vec![b'a'; tail].as_slice());
    assert_eq!(&contents[tail..], vec![b'b'; 40000].as_slice());
}

#[test]
fn replay_delivers_output_produced_before_attach() {
    let mut b = WsBroadcaster::new();
    let forwarded = b.try_send(WsMessage::PtyOutput(PtyOutputMsg {
        pty_id: 1,
        data: "hello".to_string(),
    }));
    assert!(forwarded.is_none());

    let replay = b.take_pty_output_buffer();
    assert_eq!(replay, "hello");

    let msgs = releash::ws_server::attach_messages(true, Some((1, None)), replay, None);
    assert_eq!(msgs.len(), 2);
    match &msgs[0] {
        WsMessage::PtyReady(p) => {
            assert_eq!((p.cols, p.rows), (80, 24));
        }
        _ => panic!("expected pty_ready"),
    }
    match &msgs[1] {
        WsMessage::PtyOutput(p) => assert_eq!(p.data, "hello"),
        _ => panic!("expected the replay as the first pty_output"),
    }
}

#[test]
fn messages_are_forwarded_only_while_attached() {
    let mut b = WsBroadcaster::new();
    b.set_sender(true);
    let forwarded = b.try_send(WsMessage::PtyOutput(PtyOutputMsg {
        pty_id: 1,
        data: "x".to_string(),
    }));
    assert!(forwarded.is_some());
    b.set_sender(false);
    let dropped = b.try_send(WsMessage::PtyOutput(PtyOutputMsg {
        pty_id: 1,
        data: "y".to_string(),
    }));
    assert!(dropped.is_none());
    // both payloads reached the ring regardless
    assert_eq!(b.take_pty_output_buffer(), "xy");
}
