use ppe_core::path::resolve_file_name;
use ppe_core::path::replace_seps;
use ppe_core::pcb_parser::PCBoardParser;
use ppe_core::pcb_parser::PcbCaret;
use ppe_core::pcb_parser::conv_ch;

#[test]
fn backslashes_become_slashes() {
    assert_eq!(replace_seps("DIR\\SUB\\FILE.TXT").as_str(), "DIR/SUB/FILE.TXT");
    assert_eq!(replace_seps("plain").as_str(), "plain");
    assert_eq!(replace_seps("").as_str(), "");
}

#[test]
fn system_drive_paths_are_rerooted() {
    let resolved = resolve_file_name("/srv/board", "C:\\PCB\\MAIN\\PPE.LOG");
    assert_eq!(resolved.as_str(), "/srv/board/PCB/MAIN/PPE.LOG");
}

#[test]
fn short_drive_paths_keep_the_whole_name() {
    assert_eq!(resolve_file_name("R", "C:\\AB.TXT").as_str(), "R/AB.TXT");
}

#[test]
fn other_paths_only_change_separators() {
    let resolved = resolve_file_name("/srv/board", "DATA\\USERS.DAT");
    assert_eq!(resolved.as_str(), "DATA/USERS.DAT");
}

#[test]
fn hex_digit_values() {
    assert_eq!(conv_ch(b'0'), 0);
    assert_eq!(conv_ch(b'9'), 9);
    assert_eq!(conv_ch(b'a'), 10);
    assert_eq!(conv_ch(b'f'), 15);
    assert_eq!(conv_ch(b'A'), 10);
    assert_eq!(conv_ch(b'F'), 15);
    assert_eq!(conv_ch(b'z'), 0);
}

#[test]
fn streaming_parser_rewrites_a_color_code() {
    let mut parser = PCBoardParser::new();
    let mut caret = PcbCaret::new();
    let mut buf: Vec<u8> = Vec::new();
    for b in b"a@X0Fb" {
        parser.print_char(&mut buf, &mut caret, *b);
    }
    assert_eq!(buf, b"a\x1B[1;37;40mb".to_vec());
    assert_eq!(caret.attr, 0x0F);
}

#[test]
fn streaming_parser_swallows_cancelled_escapes() {
    let mut parser = PCBoardParser::new();
    let mut caret = PcbCaret::new();
    let mut buf: Vec<u8> = Vec::new();
    for b in b"a@@b@qc" {
        parser.print_char(&mut buf, &mut caret, *b);
    }
    // The doubled prefix cancels the escape; an unknown escape byte is
    // dropped and the escape stays open until the next byte ends it.
    assert_eq!(buf, b"ab".to_vec());
    assert_eq!(caret.attr, 0);
}

#[test]
fn streaming_parser_first_digit_is_high_nibble() {
    let mut parser = PCBoardParser::new();
    let mut caret = PcbCaret::new();
    let mut buf: Vec<u8> = Vec::new();
    for b in b"@X17" {
        parser.print_char(&mut buf, &mut caret, *b);
    }
    assert_eq!(caret.attr, 0x17);
    assert_eq!(buf, b"\x1B[0;37;44m".to_vec());
}
