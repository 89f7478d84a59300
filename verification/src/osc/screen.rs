//! The little terminal control state that decides when reply anchors of the
//! primary screen are kept or dropped.
use crate::bytes::{after, is_text, split_fields};
use crate::osc::color::{self, is_ignored_string_intro};
use crate::osc::stream::{self, raw_c1_transition, RawC1Transition};
use vstd::prelude::*;

verus! {

/// The most parameter bytes of a control sequence that are kept.
pub const PRIMARY_SCREEN_ESCAPE_MAX_CSI_BYTES: usize = 32;

#[derive(Debug)]
pub enum PrimaryScreenEscapeState {
    Ground,
    Escape,
    EscapeIntermediate,
    Csi { params: Vec<u8> },
    CsiDiscard,
    OscString,
    String,
}

/// The mathematical counterpart of `PrimaryScreenEscapeState`.
pub enum EscapeView {
    Ground,
    Escape,
    EscapeIntermediate,
    Csi { params: Seq<u8> },
    CsiDiscard,
    OscString,
    String,
}

/// The tracker's state: which screen is shown and where in a sequence it is.
pub struct ScreenView {
    pub alternate_screen: bool,
    pub state: EscapeView,
}

impl View for PrimaryScreenEscapeState {
    type V = EscapeView;

    open spec fn view(&self) -> EscapeView {
        match self {
            PrimaryScreenEscapeState::Ground => EscapeView::Ground,
            PrimaryScreenEscapeState::Escape => EscapeView::Escape,
            PrimaryScreenEscapeState::EscapeIntermediate => EscapeView::EscapeIntermediate,
            PrimaryScreenEscapeState::Csi { params } => EscapeView::Csi { params: params@ },
            PrimaryScreenEscapeState::CsiDiscard => EscapeView::CsiDiscard,
            PrimaryScreenEscapeState::OscString => EscapeView::OscString,
            PrimaryScreenEscapeState::String => EscapeView::String,
        }
    }
}

/// Whether one of the modes is a switch to or from the alternate screen.
pub open spec fn names_alternate_mode(modes: Seq<Seq<u8>>) -> bool {
    exists|i: int| 0 <= i < modes.len() && alternate_mode(#[trigger] modes[i])
}

pub open spec fn alternate_mode(mode: Seq<u8>) -> bool {
    mode == crate::bytes::utf8("47") || mode == crate::bytes::utf8("1047") || mode
        == crate::bytes::utf8("1049")
}

/// Which screen is shown after a control sequence.
pub open spec fn screen_after_csi(params: Seq<u8>, final_byte: u8, alternate_screen: bool) -> bool {
    if (final_byte == 'h' as u8 || final_byte == 'l' as u8) && params.len() > 0 && params[0]
        == '?' as u8 && names_alternate_mode(crate::bytes::fields(params.skip(1), ';' as u8)) {
        final_byte == 'h' as u8
    } else {
        alternate_screen
    }
}

/// Whether a control sequence erases the primary screen's scrollback.
pub open spec fn erases_scrollback(params: Seq<u8>, final_byte: u8, alternate_screen: bool) -> bool {
    final_byte == 'J' as u8 && !alternate_screen && (params == crate::bytes::utf8("3") || params
        == crate::bytes::utf8("?3"))
}

impl ScreenView {
    pub open spec fn initial() -> ScreenView {
        ScreenView { alternate_screen: false, state: EscapeView::Ground }
    }

    pub open spec fn to(self, state: EscapeView) -> ScreenView {
        ScreenView { state, ..self }
    }

    pub open spec fn csi() -> EscapeView {
        EscapeView::Csi { params: Seq::empty() }
    }

    pub open spec fn wf(self) -> bool {
        self.state matches EscapeView::Csi { params } ==> params.len()
            <= PRIMARY_SCREEN_ESCAPE_MAX_CSI_BYTES
    }

    pub open spec fn c1(self, transition: RawC1Transition) -> ScreenView {
        match transition {
            RawC1Transition::Ground => self.to(EscapeView::Ground),
            RawC1Transition::String => self.to(EscapeView::String),
            RawC1Transition::Csi => self.to(ScreenView::csi()),
            RawC1Transition::Osc => self.to(EscapeView::OscString),
        }
    }

    pub open spec fn after_escape(self, byte: u8) -> ScreenView {
        if byte == '[' as u8 {
            self.to(ScreenView::csi())
        } else if byte == ']' as u8 {
            self.to(EscapeView::OscString)
        } else if color::ignored_string_intro(byte) {
            self.to(EscapeView::String)
        } else if 0x20 <= byte <= 0x2f {
            self.to(EscapeView::EscapeIntermediate)
        } else if 0x30 <= byte <= 0x7e {
            self.to(EscapeView::Ground)
        } else {
            self
        }
    }

    /// One byte: the next state, and whether the byte completed a control
    /// sequence that erases the primary screen's scrollback.
    pub open spec fn step(self, byte: u8) -> (ScreenView, bool) {
        if byte == 0x1b {
            (self.to(EscapeView::Escape), false)
        } else if byte == 0x18 || byte == 0x1a {
            (self.to(EscapeView::Ground), false)
        } else if !(self.state is Ground || self.state is OscString) && stream::c1_transition(
            byte,
        ) is Some {
            (self.c1(stream::c1_transition(byte)->0), false)
        } else {
            match self.state {
                EscapeView::Ground => (self, false),
                EscapeView::Escape => (self.after_escape(byte), false),
                EscapeView::EscapeIntermediate => if 0x30 <= byte <= 0x7e {
                    (self.to(EscapeView::Ground), false)
                } else {
                    (self, false)
                },
                EscapeView::Csi { params } => if 0x40 <= byte <= 0x7e {
                    let alternate_screen = screen_after_csi(params, byte, self.alternate_screen);
                    (
                        ScreenView { alternate_screen, state: EscapeView::Ground },
                        erases_scrollback(params, byte, alternate_screen),
                    )
                } else if 0x20 <= byte <= 0x3f {
                    if params.len() < PRIMARY_SCREEN_ESCAPE_MAX_CSI_BYTES {
                        (self.to(EscapeView::Csi { params: params.push(byte) }), false)
                    } else {
                        (self.to(EscapeView::CsiDiscard), false)
                    }
                } else {
                    (self, false)
                },
                EscapeView::CsiDiscard => if 0x40 <= byte <= 0x7e {
                    (self.to(EscapeView::Ground), false)
                } else {
                    (self, false)
                },
                EscapeView::OscString => if byte == 0x07 {
                    (self.to(EscapeView::Ground), false)
                } else {
                    (self, false)
                },
                EscapeView::String => (self, false),
            }
        }
    }
}

/// Tracks the small subset of terminal control state needed to discard reply
/// markers from alternate screens and to reset anchors before the primary
/// screen's scrollback is erased.
#[derive(Debug)]
pub struct PrimaryScreenEscapeTracker {
    alternate_screen: bool,
    state: PrimaryScreenEscapeState,
}

impl View for PrimaryScreenEscapeTracker {
    type V = ScreenView;

    closed spec fn view(&self) -> ScreenView {
        ScreenView { alternate_screen: self.alternate_screen, state: self.state@ }
    }
}

impl Default for PrimaryScreenEscapeTracker {
    fn default() -> (tracker: Self)
        ensures
            tracker@ == ScreenView::initial(),
    {
        PrimaryScreenEscapeTracker {
            alternate_screen: false,
            state: PrimaryScreenEscapeState::Ground,
        }
    }
}

fn primary_screen_csi_state() -> (state: PrimaryScreenEscapeState)
    ensures
        state@ == ScreenView::csi(),
{
    let state = PrimaryScreenEscapeState::Csi { params: Vec::new() };
    assert(state@->params =~= Seq::empty());
    state
}

impl PrimaryScreenEscapeTracker {
    pub fn set_alternate_screen(&mut self, alternate_screen: bool)
        ensures
            final(self)@ == (ScreenView { alternate_screen, ..old(self)@ }),
    {
        self.alternate_screen = alternate_screen;
    }

    pub fn alternate_screen(&self) -> (shown: bool)
        ensures
            shown == self@.alternate_screen,
    {
        self.alternate_screen
    }

    /// Observes one byte; true only when it completes a control sequence that
    /// erases the primary screen's scrollback.
    pub fn observe(&mut self, byte: u8) -> (clear: bool)
        ensures
            final(self)@ == old(self)@.step(byte).0,
            clear == old(self)@.step(byte).1,
    {
        if byte == 0x1b {
            self.state = PrimaryScreenEscapeState::Escape;
            return false;
        }
        if byte == 0x18 || byte == 0x1a {
            self.state = PrimaryScreenEscapeState::Ground;
            return false;
        }
        if !matches!(
            self.state,
            PrimaryScreenEscapeState::Ground | PrimaryScreenEscapeState::OscString
        ) {
            if let Some(transition) = raw_c1_transition(byte) {
                self.state = match transition {
                    RawC1Transition::Ground => PrimaryScreenEscapeState::Ground,
                    RawC1Transition::String => PrimaryScreenEscapeState::String,
                    RawC1Transition::Csi => primary_screen_csi_state(),
                    RawC1Transition::Osc => PrimaryScreenEscapeState::OscString,
                };
                return false;
            }
        }
        let ghost start = self@;
        let mut state = PrimaryScreenEscapeState::Ground;
        std::mem::swap(&mut state, &mut self.state);
        match state {
            PrimaryScreenEscapeState::Ground => {},
            PrimaryScreenEscapeState::Escape => {
                self.state = if byte == '[' as u8 {
                    primary_screen_csi_state()
                } else if byte == ']' as u8 {
                    PrimaryScreenEscapeState::OscString
                } else if is_ignored_string_intro(byte) {
                    PrimaryScreenEscapeState::String
                } else if 0x20 <= byte && byte <= 0x2f {
                    PrimaryScreenEscapeState::EscapeIntermediate
                } else if 0x30 <= byte && byte <= 0x7e {
                    PrimaryScreenEscapeState::Ground
                } else {
                    PrimaryScreenEscapeState::Escape
                };
            },
            PrimaryScreenEscapeState::EscapeIntermediate => {
                if !(0x30 <= byte && byte <= 0x7e) {
                    self.state = PrimaryScreenEscapeState::EscapeIntermediate;
                }
            },
            PrimaryScreenEscapeState::Csi { mut params } => {
                if 0x40 <= byte && byte <= 0x7e {
                    return apply_primary_screen_csi(
                        params.as_slice(),
                        byte,
                        &mut self.alternate_screen,
                    );
                }
                if 0x20 <= byte && byte <= 0x3f {
                    if params.len() < PRIMARY_SCREEN_ESCAPE_MAX_CSI_BYTES {
                        params.push(byte);
                        self.state = PrimaryScreenEscapeState::Csi { params };
                    } else {
                        self.state = PrimaryScreenEscapeState::CsiDiscard;
                    }
                } else {
                    self.state = PrimaryScreenEscapeState::Csi { params };
                }
            },
            PrimaryScreenEscapeState::CsiDiscard => {
                if !(0x40 <= byte && byte <= 0x7e) {
                    self.state = PrimaryScreenEscapeState::CsiDiscard;
                }
            },
            PrimaryScreenEscapeState::OscString => {
                if byte != 0x07 {
                    self.state = PrimaryScreenEscapeState::OscString;
                }
            },
            PrimaryScreenEscapeState::String => {
                self.state = PrimaryScreenEscapeState::String;
            },
        }
        false
    }
}

fn apply_primary_screen_csi(params: &[u8], final_byte: u8, alternate_screen: &mut bool) -> (clear:
    bool)
    ensures
        *final(alternate_screen) == screen_after_csi(params@, final_byte, *old(alternate_screen)),
        clear == erases_scrollback(params@, final_byte, *final(alternate_screen)),
{
    if (final_byte == 'h' as u8 || final_byte == 'l' as u8) && params.len() > 0 && params[0]
        == '?' as u8 {
        let modes = split_fields(after(params, 1), ';' as u8);
        let ghost all = crate::bytes::views(modes@);
        let mut found = false;
        let mut i: usize = 0;
        while i < modes.len() && !found
            invariant
                i <= modes.len(),
                all == crate::bytes::views(modes@),
                found ==> names_alternate_mode(all),
                !found ==> forall|j: int| 0 <= j < i ==> !alternate_mode(#[trigger] all[j]),
            decreases modes.len() - i,
        {
            let mode = modes[i].as_slice();
            found = is_text(mode, "47") || is_text(mode, "1047") || is_text(mode, "1049");
            assert(all[i as int] == mode@);
            i += 1;
        }
        if found {
            *alternate_screen = final_byte == 'h' as u8;
        }
    }
    final_byte == 'J' as u8 && !*alternate_screen && (is_text(params, "3") || is_text(params, "?3"))
}

/// The parameters that are kept of a control sequence are bounded.
pub proof fn law_params_bounded(start: ScreenView, byte: u8)
    requires
        start.wf(),
    ensures
        start.step(byte).0.wf(),
{
}

/// Only the end of a control sequence switches screens or reports an erase, and
/// an erase is reported only on the primary screen.
pub proof fn law_only_csi_ends_act(start: ScreenView, byte: u8)
    ensures
        start.step(byte).0.alternate_screen != start.alternate_screen ==> start.state is Csi
            && 0x40 <= byte <= 0x7e,
        start.step(byte).1 ==> start.state is Csi && byte == 'J' as u8
            && !start.step(byte).0.alternate_screen,
{
}

/// The alternate screen is shown from the end of a sequence that sets one of its modes until
/// the end of one that resets one.
pub proof fn law_modes_switch_the_screen(start: ScreenView, mode: Seq<u8>)
    requires
        start.state == (EscapeView::Csi { params: seq!['?' as u8] + mode }),
        mode == seq!['4' as u8, '7' as u8] || mode == seq!['1' as u8, '0' as u8, '4' as u8, '7'
            as u8] || mode == seq!['1' as u8, '0' as u8, '4' as u8, '9' as u8],
    ensures
        start.step('h' as u8).0 == (ScreenView {
            alternate_screen: true,
            state: EscapeView::Ground,
        }),
        start.step('l' as u8).0 == (ScreenView {
            alternate_screen: false,
            state: EscapeView::Ground,
        }),
{
    reveal_strlit("47");
    reveal_strlit("1047");
    reveal_strlit("1049");
    vstd::utf8::is_ascii_chars_encode_utf8("47"@);
    vstd::utf8::is_ascii_chars_encode_utf8("1047"@);
    vstd::utf8::is_ascii_chars_encode_utf8("1049"@);
    let params = seq!['?' as u8] + mode;
    assert(params.skip(1) =~= mode);
    lemma_single_mode(mode);
    let modes = crate::bytes::fields(mode, ';' as u8);
    assert(modes[0] == mode);
    assert(mode =~= crate::bytes::utf8("47") || mode =~= crate::bytes::utf8("1047") || mode
        =~= crate::bytes::utf8("1049"));
    assert(alternate_mode(modes[0]));
}

proof fn lemma_single_mode(mode: Seq<u8>)
    requires
        forall|i: int| 0 <= i < mode.len() ==> mode[i] != ';' as u8,
    ensures
        crate::bytes::fields(mode, ';' as u8) == seq![mode],
    decreases mode.len(),
{
    if mode.len() == 0 {
        assert(mode =~= Seq::empty());
    } else {
        let shorter = mode.drop_last();
        assert forall|i: int| 0 <= i < shorter.len() implies shorter[i] != ';' as u8 by {
            assert(shorter[i] == mode[i]);
        }
        lemma_single_mode(shorter);
        assert(shorter.push(mode.last()) =~= mode);
        assert(crate::bytes::fields(mode, ';' as u8) =~= seq![mode]);
    }
}

/// A sequence without a private mode, or with another end, leaves the screen as it is.
pub proof fn law_other_sequences_keep_the_screen(params: Seq<u8>, final_byte: u8, alternate: bool)
    requires
        params.len() == 0 || params[0] != '?' as u8 || (final_byte != 'h' as u8 && final_byte
            != 'l' as u8),
    ensures
        screen_after_csi(params, final_byte, alternate) == alternate,
{
}

/// The scrollback is erased exactly by `3J`, private or not, and only on the primary screen.
pub proof fn law_scrollback_is_erased_by_its_sequence(
    params: Seq<u8>,
    final_byte: u8,
    alternate: bool,
)
    ensures
        erases_scrollback(params, final_byte, alternate) <==> !alternate && final_byte == 'J' as u8
            && (params == seq!['3' as u8] || params == seq!['?' as u8, '3' as u8]),
{
    reveal_strlit("3");
    reveal_strlit("?3");
    vstd::utf8::is_ascii_chars_encode_utf8("3"@);
    vstd::utf8::is_ascii_chars_encode_utf8("?3"@);
    assert(crate::bytes::utf8("3") =~= seq!['3' as u8]);
    assert(crate::bytes::utf8("?3") =~= seq!['?' as u8, '3' as u8]);
}

/// A control sequence is followed from its start to its end: an escape and a bracket begin
/// one, its parameters are kept, and an escape or a cancel ends whatever was open.
pub proof fn law_sequences_are_followed(start: ScreenView, params: Seq<u8>, byte: u8)
    requires
        params.len() < PRIMARY_SCREEN_ESCAPE_MAX_CSI_BYTES,
        0x20 <= byte <= 0x3f,
    ensures
        start.step(0x1b).0 == (ScreenView { state: EscapeView::Escape, ..start }),
        start.step(0x18).0 == (ScreenView { state: EscapeView::Ground, ..start }),
        start.step(0x1a).0 == (ScreenView { state: EscapeView::Ground, ..start }),
        start.step(0x1b).0.step('[' as u8).0 == (ScreenView {
            state: EscapeView::Csi { params: Seq::empty() },
            ..start
        }),
        start.step(0x1b).0.step(']' as u8).0 == (ScreenView {
            state: EscapeView::OscString,
            ..start
        }),
        (ScreenView { state: EscapeView::Csi { params }, ..start }).step(byte).0 == (ScreenView {
            state: EscapeView::Csi { params: params.push(byte) },
            ..start
        }),
        (ScreenView { state: EscapeView::OscString, ..start }).step(0x07).0 == (ScreenView {
            state: EscapeView::Ground,
            ..start
        }),
{
}

} // verus!
