use held::utils::buffer::EditBuffer;
use held::utils::cursor::CursorCrtl;
use held::utils::input::KeyEventType;
use held::utils::ui::event::WarpUiCallBackType;
use held::utils::ui::mode::mode::{set_mode, LastLine, ModeType};
use held::utils::ui::mode::normal::NormalState;
use held::utils::ui::mode::route::key_event_route;
use held::utils::ui::uicore::{UiCore, WinSize};

const SIZE: WinSize = WinSize { cols: 20, rows: 6 };

struct Ed {
    ui: UiCore,
    mode: ModeType,
    ll: LastLine,
    st: NormalState,
}

impl Ed {
    fn new(text: &str) -> Ed {
        let mut c = CursorCrtl::new();
        c.move_to(0, 0, SIZE);
        Ed {
            ui: UiCore::new(EditBuffer::new(text.as_bytes().to_vec()), c, SIZE),
            mode: ModeType::Command,
            ll: LastLine::new(),
            st: NormalState::new(),
        }
    }

    fn key(&mut self, key: KeyEventType, follow: u8) -> WarpUiCallBackType {
        let r = key_event_route(self.mode, &mut self.ui, &mut self.ll, &mut self.st, &key, follow);
        if let WarpUiCallBackType::ChangMode(m) = r {
            set_mode(&mut self.ui, &mut self.ll, m);
            self.mode = m;
        }
        r
    }

    fn text(&self) -> Vec<u8> {
        self.ui.buffer.all_buffer().into_iter().flat_map(|l| l.data).collect()
    }
}

#[test]
fn command_keys_move_and_delete() {
    let mut e = Ed::new("ab\ncd\n");
    e.key(KeyEventType::Right, 0);
    assert_eq!(e.ui.cursor.x(), 1);
    e.key(KeyEventType::Down, 0);
    assert_eq!(e.ui.cursor.y(), 1);
    e.key(KeyEventType::Common(b'd'), b'd');
    assert_eq!(e.text(), b"ab\n".to_vec());
    assert_eq!(e.key(KeyEventType::Unknown(vec![1, 2]), 0), WarpUiCallBackType::Nothing);
}

#[test]
fn typing_in_insert_mode_and_leaving_it() {
    let mut e = Ed::new("ab\n");
    assert_eq!(e.key(KeyEventType::Common(b'i'), 0), WarpUiCallBackType::ChangMode(ModeType::Insert));
    e.key(KeyEventType::Common(b'z'), 0);
    assert_eq!(e.text(), b"zab\n".to_vec());
    e.key(KeyEventType::Enter, 0);
    assert_eq!(e.text(), b"z\nab\n".to_vec());
    assert_eq!(e.key(KeyEventType::Esc, 0), WarpUiCallBackType::ChangMode(ModeType::Command));
}

#[test]
fn the_command_line_leaves_on_q() {
    let mut e = Ed::new("ab\n");
    assert_eq!(e.key(KeyEventType::Common(b':'), 0), WarpUiCallBackType::ChangMode(ModeType::LastLine));
    e.key(KeyEventType::Common(b'q'), 0);
    assert_eq!(e.ll.bytes().clone(), b":q".to_vec());
    assert_eq!(e.key(KeyEventType::Enter, 0), WarpUiCallBackType::Exit(false));
}

#[test]
fn the_command_line_gives_back_the_command_mode() {
    let mut e = Ed::new("ab\n");
    e.key(KeyEventType::Common(b':'), 0);
    e.key(KeyEventType::Common(b'x'), 0);
    e.key(KeyEventType::Backspace, 0);
    assert_eq!(e.ll.bytes().clone(), b":".to_vec());
    assert_eq!(e.key(KeyEventType::Esc, 0), WarpUiCallBackType::ChangMode(ModeType::Command));
    assert_eq!((e.ui.cursor.x(), e.ui.cursor.y()), (0, 0));
}

#[test]
fn normal_mode_counts_and_moves() {
    let mut e = Ed::new("a\nb\nc\nd\ne\nf\ng\nh\n");
    assert_eq!(e.key(KeyEventType::Common(b'n'), 0), WarpUiCallBackType::ChangMode(ModeType::Normal));
    e.key(KeyEventType::Common(b'2'), 0);
    e.key(KeyEventType::Common(b'j'), 0);
    assert_eq!(e.ui.cursor.y(), 2);
    assert_eq!(e.key(KeyEventType::Esc, 0), WarpUiCallBackType::ChangMode(ModeType::Command));
}
