//! Which mode's handler a key goes to.
use crate::utils::cursor::{col_of, sp_restore_pos};
use crate::utils::input::{KeyEventType, KeyModel};
use crate::utils::ui::event::{
    backspace,
    backspace_ok,
    down,
    down_ok,
    left,
    left_ok,
    m_backspace,
    m_down,
    m_left,
    m_right,
    m_up,
    right,
    right_ok,
    up,
    up_ok,
    WarpUiCallBackType,
};
use crate::utils::ui::mode::mode::{
    command_ok,
    exit_request,
    insert_enter_ok,
    insert_input_ok,
    insert_tab_ok,
    ll_backspace,
    ll_backspace_ok,
    ll_enter,
    ll_enter_ok,
    ll_input,
    ll_input_ok,
    m_command,
    m_insert_enter,
    m_insert_input,
    m_insert_tab,
    Command,
    Insert,
    LastLine,
    ModeType,
};
use crate::utils::ui::mode::normal::{normal_input, normal_input_ok, Normal, NormalModel, NormalState};
use crate::utils::ui::uicore::{m_step, UiCore, UiModel};
use vstd::prelude::*;

verus! {

/// The bytes a character key `b` hands to the command mode: with `d`, the key typed after it.
pub open spec fn command_bytes(b: u8, follow: u8) -> Seq<u8> {
    if b == ('d' as u8) {
        seq![b, follow]
    } else {
        seq![b]
    }
}

/// A key `key` typed in mode `mode`, with `c` the command line and `s` the command Normal mode
/// has typed so far (`follow` is the key typed after `d` in the command mode): the answer, the
/// screen, the command line and Normal mode's command afterwards. The cursor keys move the
/// cursor in every mode (up and down not on the command line); a character goes to the mode's
/// handler of typed keys; Enter, Tab, Backspace and Esc go to the handlers of the modes that
/// have them: Enter runs the command line's leaving commands (see `exit_request`), Backspace
/// in Normal mode moves left, Esc leaves the insert mode, the command line and Normal mode for
/// the command mode. Any other key does nothing.
pub open spec fn m_route(
    mode: ModeType,
    m: UiModel,
    c: Seq<u8>,
    s: NormalModel,
    key: KeyModel,
    follow: u8,
) -> (WarpUiCallBackType, UiModel, Seq<u8>, NormalModel) {
    let nothing = WarpUiCallBackType::Nothing;
    let to_command = WarpUiCallBackType::ChangMode(ModeType::Command);
    match key {
        KeyModel::Up => if mode == ModeType::LastLine { (nothing, m, c, s) } else { (nothing, m_up(m), c, s) },
        KeyModel::Down => if mode == ModeType::LastLine { (nothing, m, c, s) } else { (nothing, m_down(m), c, s) },
        KeyModel::Left => (nothing, m_left(m), c, s),
        KeyModel::Right => (nothing, m_right(m), c, s),
        KeyModel::Common(b) => match mode {
            ModeType::Command => {
                let (r, m2) = m_command(m, command_bytes(b, follow));
                (r, m2, c, s)
            },
            ModeType::Insert => (nothing, m_insert_input(m, seq![b]), c, s),
            ModeType::LastLine => {
                let (c2, m2) = ll_input(c, m, seq![b]);
                (nothing, m2, c2, s)
            },
            ModeType::Normal => {
                let (r, m2, s2) = normal_input(s, m, seq![b]);
                (r, m2, c, s2)
            },
        },
        KeyModel::Enter => match mode {
            ModeType::Insert => (nothing, m_insert_enter(m), c, s),
            ModeType::LastLine => {
                let (r, c2, m2) = ll_enter(c, m, exit_request(c));
                (r, m2, c2, s)
            },
            _ => (nothing, m, c, s),
        },
        KeyModel::Tab => if mode == ModeType::Insert { (nothing, m_insert_tab(m), c, s) } else { (nothing, m, c, s) },
        KeyModel::Backspace => match mode {
            ModeType::Insert => (nothing, m_backspace(m), c, s),
            ModeType::LastLine => {
                let (c2, m2) = ll_backspace(c, m);
                (nothing, m2, c2, s)
            },
            ModeType::Normal => (nothing, m_left(m), c, s),
            ModeType::Command => (nothing, m, c, s),
        },
        KeyModel::Esc => match mode {
            ModeType::Command => (nothing, m, c, s),
            ModeType::LastLine => (to_command, m_step(m, sp_restore_pos(m.cursor)), c, s),
            _ => (to_command, m, c, s),
        },
        KeyModel::Unknown(_) => (nothing, m, c, s),
    }
}

/// What the handler a key goes to needs (see `m_route`).
pub open spec fn route_ok(mode: ModeType, m: UiModel, c: Seq<u8>, s: NormalModel, key: KeyModel, follow: u8) -> bool {
    match key {
        KeyModel::Up => mode != ModeType::LastLine ==> up_ok(m),
        KeyModel::Down => mode != ModeType::LastLine ==> down_ok(m),
        KeyModel::Left => left_ok(m),
        KeyModel::Right => right_ok(m),
        KeyModel::Common(b) => match mode {
            ModeType::Command => command_ok(m, command_bytes(b, follow)),
            ModeType::Insert => insert_input_ok(m, seq![b]),
            ModeType::LastLine => ll_input_ok(c, m),
            ModeType::Normal => normal_input_ok(s, m, seq![b]),
        },
        KeyModel::Enter => match mode {
            ModeType::Insert => insert_enter_ok(m),
            ModeType::LastLine => ll_enter_ok(m, exit_request(c)),
            _ => true,
        },
        KeyModel::Tab => mode == ModeType::Insert ==> insert_tab_ok(m),
        KeyModel::Backspace => match mode {
            ModeType::Insert => backspace_ok(m),
            ModeType::LastLine => ll_backspace_ok(c, m),
            ModeType::Normal => left_ok(m),
            ModeType::Command => true,
        },
        KeyModel::Esc => mode == ModeType::LastLine ==> m.cursor.stored,
        KeyModel::Unknown(_) => true,
    }
}

/// Hands character key `b`, typed in mode `mode`, to the mode's handler of typed keys.
#[verifier::spinoff_prover]
fn common_key(
    mode: ModeType,
    ui: &mut UiCore,
    lastline: &mut LastLine,
    normal: &mut NormalState,
    b: u8,
    follow: u8,
) -> (r: WarpUiCallBackType)
    requires
        route_ok(mode, old(ui)@, old(lastline).content(), old(normal)@, KeyModel::Common(b), follow),
    ensures
        (r, final(ui)@, final(lastline).content(), final(normal)@) == m_route(
            mode,
            old(ui)@,
            old(lastline).content(),
            old(normal)@,
            KeyModel::Common(b),
            follow,
        ),
{
    match mode {
        ModeType::Command => {
            let data: Vec<u8> = if b == ('d' as u8) {
                vec![b, follow]
            } else {
                vec![b]
            };
            assert(data@ =~= command_bytes(b, follow));
            Command.input_data(ui, &data)
        },
        ModeType::Insert => {
            let data: Vec<u8> = vec![b];
            assert(data@ =~= seq![b]);
            Insert.input_data(ui, &data)
        },
        ModeType::LastLine => {
            let data: Vec<u8> = vec![b];
            assert(data@ =~= seq![b]);
            lastline.input_data(ui, &data)
        },
        ModeType::Normal => {
            let data: Vec<u8> = vec![b];
            assert(data@ =~= seq![b]);
            Normal.input_data(ui, normal, &data)
        },
    }
}

/// Hands key `key`, typed in mode `mode`, to the handler it goes to (see `m_route`).
#[verifier::rlimit(50)]
#[verifier::spinoff_prover]
pub fn key_event_route(
    mode: ModeType,
    ui: &mut UiCore,
    lastline: &mut LastLine,
    normal: &mut NormalState,
    key: &KeyEventType,
    follow: u8,
) -> (r: WarpUiCallBackType)
    requires
        route_ok(mode, old(ui)@, old(lastline).content(), old(normal)@, key@, follow),
    ensures
        (r, final(ui)@, final(lastline).content(), final(normal)@) == m_route(
            mode,
            old(ui)@,
            old(lastline).content(),
            old(normal)@,
            key@,
            follow,
        ),
{
    match key {
        KeyEventType::Up => match mode {
            ModeType::LastLine => WarpUiCallBackType::Nothing,
            _ => up(ui),
        },
        KeyEventType::Down => match mode {
            ModeType::LastLine => WarpUiCallBackType::Nothing,
            _ => down(ui),
        },
        KeyEventType::Left => left(ui),
        KeyEventType::Right => right(ui),
        KeyEventType::Common(b) => common_key(mode, ui, lastline, normal, *b, follow),
        KeyEventType::Enter => match mode {
            ModeType::Insert => Insert.enter(ui),
            ModeType::LastLine => {
                let ret = lastline.exit_command();
                lastline.enter(ui, ret)
            },
            _ => WarpUiCallBackType::Nothing,
        },
        KeyEventType::Tab => match mode {
            ModeType::Insert => Insert.tab(ui),
            _ => WarpUiCallBackType::Nothing,
        },
        KeyEventType::Backspace => match mode {
            ModeType::Insert => backspace(ui),
            ModeType::LastLine => lastline.backspace(ui),
            ModeType::Normal => left(ui),
            ModeType::Command => WarpUiCallBackType::Nothing,
        },
        KeyEventType::Esc => match mode {
            ModeType::Command => WarpUiCallBackType::Nothing,
            ModeType::LastLine => lastline.esc(ui),
            ModeType::Insert => Insert.esc(),
            ModeType::Normal => WarpUiCallBackType::ChangMode(ModeType::Command),
        },
        KeyEventType::Unknown(_) => WarpUiCallBackType::Nothing,
    }
}

} // verus!
