//! Keyboard and mode handling of the viewer: which key does what, which keys are held,
//! and what each frame should move.
//!
//! The continuous settings (fog density, day factor, speeds) are real numbers and stay
//! with the caller; this module decides everything else and tells the caller, through a
//! [`Command`], when one of those settings is to change.
use vstd::prelude::*;
use vstd::string::*;

verus! {

/// Index of the free camera in the camera list (Static, Tracking, TPP, FPP, Free).
pub const FREE_CAMERA: usize = 4;

/// Number of cameras.
pub const CAMERA_COUNT: usize = 5;

/// A key as the window reports it.
pub enum KeyInput {
    /// A key that produces text; the text as reported.
    Character(String),
    Tab,
    Escape,
    Space,
    ArrowLeft,
    ArrowRight,
    ArrowUp,
    ArrowDown,
    /// Any other named key.
    Other,
}

/// What a key press asks for.
#[derive(Clone, Copy, Debug, PartialEq, Eq, Structural)]
pub enum Command {
    /// Leave the application (Esc).
    Quit,
    /// Switch to camera `n` (keys 1 to 5).
    SelectCamera(usize),
    /// Switch between Phong and Gouraud shading (P).
    TogglePhong,
    /// Fog on / off (F).
    ToggleFog,
    /// Thicker fog (+ or =).
    FogDenser,
    /// Thinner fog (-).
    FogThinner,
    /// Automatic day/night cycle on / off (N).
    ToggleDayNightAuto,
    /// Manual step towards day (O).
    Brighter,
    /// Manual step towards night (L).
    Darker,
    /// Animation / manual drive (Space).
    ToggleDrive,
    /// The key does nothing.
    Nothing,
}

/// The keys held down that move things continuously.
#[derive(Clone, Copy, Debug, PartialEq, Eq, Structural)]
pub struct HeldKeys {
    pub w: bool,
    pub a: bool,
    pub s: bool,
    pub d: bool,
    pub q: bool,
    pub e: bool,
    pub left: bool,
    pub right: bool,
    pub up: bool,
    pub down: bool,
}

/// The discrete part of the options state: modes, toggles and held keys.
#[derive(Clone, Copy, Debug, PartialEq, Eq, Structural)]
pub struct ControlState {
    /// 0 Static, 1 Tracking, 2 Third-person, 3 First-person, 4 Free.
    pub active_camera: usize,
    pub use_phong: bool,
    pub fog_enabled: bool,
    pub day_night_auto: bool,
    /// The moving object is steered by hand instead of animated.
    pub manual_drive: bool,
    pub show_panel: bool,
    /// The right mouse button is held (free-camera look).
    pub mouse_look: bool,
    pub keys: HeldKeys,
}

/// The character of a key whose text is exactly one character.
pub open spec fn single_char(text: Seq<char>) -> Option<char> {
    if text.len() == 1 {
        Some(text[0])
    } else {
        None
    }
}

/// The command of a character key.
pub open spec fn char_command(c: char) -> Command {
    if c == '1' {
        Command::SelectCamera(0)
    } else if c == '2' {
        Command::SelectCamera(1)
    } else if c == '3' {
        Command::SelectCamera(2)
    } else if c == '4' {
        Command::SelectCamera(3)
    } else if c == '5' {
        Command::SelectCamera(4)
    } else if c == 'p' || c == 'P' {
        Command::TogglePhong
    } else if c == 'f' || c == 'F' {
        Command::ToggleFog
    } else if c == '+' || c == '=' {
        Command::FogDenser
    } else if c == '-' {
        Command::FogThinner
    } else if c == 'n' || c == 'N' {
        Command::ToggleDayNightAuto
    } else if c == 'o' || c == 'O' {
        Command::Brighter
    } else if c == 'l' || c == 'L' {
        Command::Darker
    } else {
        Command::Nothing
    }
}

/// The command of a key.
pub open spec fn key_command_of(key: KeyInput) -> Command {
    match key {
        KeyInput::Character(text) => match single_char(text@) {
            Some(c) => char_command(c),
            None => Command::Nothing,
        },
        KeyInput::Escape => Command::Quit,
        KeyInput::Space => Command::ToggleDrive,
        _ => Command::Nothing,
    }
}

/// The effect of a command on the discrete state. Commands on continuous settings
/// (fog density, day factor) and `Quit` leave it unchanged.
pub open spec fn apply_command(st: ControlState, cmd: Command) -> ControlState {
    match cmd {
        Command::SelectCamera(n) => ControlState { active_camera: n, ..st },
        Command::TogglePhong => ControlState { use_phong: !st.use_phong, ..st },
        Command::ToggleFog => ControlState { fog_enabled: !st.fog_enabled, ..st },
        Command::ToggleDayNightAuto => ControlState { day_night_auto: !st.day_night_auto, ..st },
        Command::ToggleDrive => ControlState { manual_drive: !st.manual_drive, ..st },
        _ => st,
    }
}

/// The commands that flip a switch.
pub open spec fn is_toggle(cmd: Command) -> bool {
    match cmd {
        Command::TogglePhong | Command::ToggleFog | Command::ToggleDayNightAuto
        | Command::ToggleDrive => true,
        _ => false,
    }
}

/// The character of a character key whose text is exactly one character.
pub open spec fn key_char_of(key: KeyInput) -> Option<char> {
    match key {
        KeyInput::Character(text) => single_char(text@),
        _ => None,
    }
}

/// A movement key (W, A, S, D, Q, E, either case) sets or clears its held flag.
pub open spec fn track_movement_char(keys: HeldKeys, c: Option<char>, pressed: bool) -> HeldKeys {
    match c {
        Some(c) => if c == 'w' || c == 'W' {
            HeldKeys { w: pressed, ..keys }
        } else if c == 'a' || c == 'A' {
            HeldKeys { a: pressed, ..keys }
        } else if c == 's' || c == 'S' {
            HeldKeys { s: pressed, ..keys }
        } else if c == 'd' || c == 'D' {
            HeldKeys { d: pressed, ..keys }
        } else if c == 'q' || c == 'Q' {
            HeldKeys { q: pressed, ..keys }
        } else if c == 'e' || c == 'E' {
            HeldKeys { e: pressed, ..keys }
        } else {
            keys
        },
        None => keys,
    }
}

/// The held flags after a key event on a movement key.
pub open spec fn track_movement(keys: HeldKeys, key: KeyInput, pressed: bool) -> HeldKeys {
    track_movement_char(keys, key_char_of(key), pressed)
}

/// An arrow key sets or clears its held flag.
pub open spec fn track_arrow(keys: HeldKeys, key: KeyInput, pressed: bool) -> HeldKeys {
    match key {
        KeyInput::ArrowLeft => HeldKeys { left: pressed, ..keys },
        KeyInput::ArrowRight => HeldKeys { right: pressed, ..keys },
        KeyInput::ArrowUp => HeldKeys { up: pressed, ..keys },
        KeyInput::ArrowDown => HeldKeys { down: pressed, ..keys },
        _ => keys,
    }
}

/// The state after the key-tracking part of a key event, before the key's command:
/// a Tab press shows or hides the panel; movement keys and arrow keys are tracked in
/// every mode, so that each held flag is set exactly while its key is down.
pub open spec fn tracked_state(st: ControlState, key: KeyInput, pressed: bool) -> ControlState {
    let s1 = if pressed && key is Tab {
        ControlState { show_panel: !st.show_panel, ..st }
    } else {
        st
    };
    ControlState { keys: track_arrow(track_movement(s1.keys, key, pressed), key, pressed), ..s1 }
}

/// -1, 0 or +1 from a pair of opposite keys.
pub open spec fn axis(pos: bool, neg: bool) -> int {
    (if pos {
        1int
    } else {
        0int
    }) - (if neg {
        1int
    } else {
        0int
    })
}

/// What one frame does with the held keys.
#[derive(Clone, Copy, Debug)]
pub struct FramePlan {
    /// The moving object follows its automatic orbit.
    pub animate: bool,
    /// Manual drive: (forward, turn), each -1, 0 or +1; turning is mirrored when reversing.
    pub drive: Option<(i8, i8)>,
    /// Free camera movement: (forward, right, up).
    pub free_move: Option<(i8, i8, i8)>,
    /// Headlight aim change from the arrow keys, in every camera mode: (yaw, pitch).
    pub spot_aim: (i8, i8),
}

/// The plan of a frame for a given state.
pub open spec fn frame_plan_of(st: ControlState) -> FramePlan {
    let k = st.keys;
    let free = st.active_camera == FREE_CAMERA;
    let forward = axis(k.w, k.s);
    let turn = axis(k.a, k.d);
    FramePlan {
        animate: !st.manual_drive,
        drive: if st.manual_drive && !free {
            Some(
                (
                    forward as i8,
                    (if forward < 0 {
                        -turn
                    } else {
                        turn
                    }) as i8,
                ),
            )
        } else {
            None
        },
        free_move: if free {
            Some((forward as i8, axis(k.d, k.a) as i8, axis(k.e, k.q) as i8))
        } else {
            None
        },
        spot_aim: (axis(k.left, k.right) as i8, axis(k.up, k.down) as i8),
    }
}

fn axis_value(pos: bool, neg: bool) -> (v: i8)
    ensures
        v == axis(pos, neg),
{
    let p: i8 = if pos {
        1
    } else {
        0
    };
    let n: i8 = if neg {
        1
    } else {
        0
    };
    p - n
}

fn char_command_exec(c: char) -> (cmd: Command)
    ensures
        cmd == char_command(c),
{
    if c == '1' {
        Command::SelectCamera(0)
    } else if c == '2' {
        Command::SelectCamera(1)
    } else if c == '3' {
        Command::SelectCamera(2)
    } else if c == '4' {
        Command::SelectCamera(3)
    } else if c == '5' {
        Command::SelectCamera(4)
    } else if c == 'p' || c == 'P' {
        Command::TogglePhong
    } else if c == 'f' || c == 'F' {
        Command::ToggleFog
    } else if c == '+' || c == '=' {
        Command::FogDenser
    } else if c == '-' {
        Command::FogThinner
    } else if c == 'n' || c == 'N' {
        Command::ToggleDayNightAuto
    } else if c == 'o' || c == 'O' {
        Command::Brighter
    } else if c == 'l' || c == 'L' {
        Command::Darker
    } else {
        Command::Nothing
    }
}

/// The character of a one-character key text.
fn key_char(text: &String) -> (c: Option<char>)
    ensures
        c == single_char(text@),
{
    let s = text.as_str();
    if s.unicode_len() == 1 {
        Some(s.get_char(0))
    } else {
        None
    }
}

/// The command a key press asks for.
pub fn key_command(key: &KeyInput) -> (cmd: Command)
    ensures
        cmd == key_command_of(*key),
        *key is Escape ==> cmd == Command::Quit,
        *key is Space ==> cmd == Command::ToggleDrive,
        !(*key is Character || *key is Escape || *key is Space) ==> cmd == Command::Nothing,
        key_char_of(*key) == Some('1') ==> cmd == Command::SelectCamera(0),
        key_char_of(*key) == Some('2') ==> cmd == Command::SelectCamera(1),
        key_char_of(*key) == Some('3') ==> cmd == Command::SelectCamera(2),
        key_char_of(*key) == Some('4') ==> cmd == Command::SelectCamera(3),
        key_char_of(*key) == Some('5') ==> cmd == Command::SelectCamera(4),
        key_char_of(*key) == Some('p') || key_char_of(*key) == Some('P') ==> cmd == Command::TogglePhong,
        key_char_of(*key) == Some('f') || key_char_of(*key) == Some('F') ==> cmd == Command::ToggleFog,
        key_char_of(*key) == Some('+') || key_char_of(*key) == Some('=') ==> cmd == Command::FogDenser,
        key_char_of(*key) == Some('-') ==> cmd == Command::FogThinner,
        key_char_of(*key) == Some('n') || key_char_of(*key) == Some('N') ==> cmd == Command::ToggleDayNightAuto,
        key_char_of(*key) == Some('o') || key_char_of(*key) == Some('O') ==> cmd == Command::Brighter,
        key_char_of(*key) == Some('l') || key_char_of(*key) == Some('L') ==> cmd == Command::Darker,
        *key is Character && key_char_of(*key) is None ==> cmd == Command::Nothing,
{
    match key {
        KeyInput::Character(text) => match key_char(text) {
            Some(c) => char_command_exec(c),
            None => Command::Nothing,
        },
        KeyInput::Escape => Command::Quit,
        KeyInput::Space => Command::ToggleDrive,
        _ => Command::Nothing,
    }
}

fn movement_update(keys: HeldKeys, c: Option<char>, pressed: bool) -> (r: HeldKeys)
    ensures
        r == track_movement_char(keys, c, pressed),
{
    let mut r = keys;
    match c {
        Some(c) => {
            if c == 'w' || c == 'W' {
                r.w = pressed;
            } else if c == 'a' || c == 'A' {
                r.a = pressed;
            } else if c == 's' || c == 'S' {
                r.s = pressed;
            } else if c == 'd' || c == 'D' {
                r.d = pressed;
            } else if c == 'q' || c == 'Q' {
                r.q = pressed;
            } else if c == 'e' || c == 'E' {
                r.e = pressed;
            }
        },
        None => {},
    }
    r
}

fn arrow_update(keys: HeldKeys, key: &KeyInput, pressed: bool) -> (r: HeldKeys)
    ensures
        r == track_arrow(keys, *key, pressed),
{
    let mut r = keys;
    match key {
        KeyInput::ArrowLeft => {
            r.left = pressed;
        },
        KeyInput::ArrowRight => {
            r.right = pressed;
        },
        KeyInput::ArrowUp => {
            r.up = pressed;
        },
        KeyInput::ArrowDown => {
            r.down = pressed;
        },
        _ => {},
    }
    r
}

impl ControlState {
    /// The state the viewer starts in: static camera, Phong shading, fog on, automatic
    /// day/night cycle, animated object, panel shown, no key held.
    pub fn new() -> (st: Self)
        ensures
            st.active_camera == 0,
            st.use_phong,
            st.fog_enabled,
            st.day_night_auto,
            !st.manual_drive,
            st.show_panel,
            !st.mouse_look,
            st.keys == (HeldKeys {
                w: false,
                a: false,
                s: false,
                d: false,
                q: false,
                e: false,
                left: false,
                right: false,
                up: false,
                down: false,
            }),
    {
        ControlState {
            active_camera: 0,
            use_phong: true,
            fog_enabled: true,
            day_night_auto: true,
            manual_drive: false,
            show_panel: true,
            mouse_look: false,
            keys: HeldKeys {
                w: false,
                a: false,
                s: false,
                d: false,
                q: false,
                e: false,
                left: false,
                right: false,
                up: false,
                down: false,
            },
        }
    }

    /// Carry out the discrete part of a command.
    pub fn apply(&mut self, cmd: Command)
        ensures
            *final(self) == apply_command(*old(self), cmd),
            final(self).fog_enabled == (old(self).fog_enabled != (cmd == Command::ToggleFog)),
            final(self).use_phong == (old(self).use_phong != (cmd == Command::TogglePhong)),
            final(self).day_night_auto == (old(self).day_night_auto != (cmd == Command::ToggleDayNightAuto)),
            final(self).manual_drive == (old(self).manual_drive != (cmd == Command::ToggleDrive)),
            final(self).active_camera == match cmd {
                Command::SelectCamera(n) => n,
                _ => old(self).active_camera,
            },
            final(self).show_panel == old(self).show_panel,
            final(self).mouse_look == old(self).mouse_look,
            final(self).keys == old(self).keys,
    {
        match cmd {
            Command::SelectCamera(n) => {
                self.active_camera = n;
            },
            Command::TogglePhong => {
                self.use_phong = !self.use_phong;
            },
            Command::ToggleFog => {
                self.fog_enabled = !self.fog_enabled;
            },
            Command::ToggleDayNightAuto => {
                self.day_night_auto = !self.day_night_auto;
            },
            Command::ToggleDrive => {
                self.manual_drive = !self.manual_drive;
            },
            _ => {},
        }
    }

    /// Handle a key press: find its command and carry out its discrete part. The caller
    /// carries out the rest (leaving, fog density, day factor) from the returned command.
    pub fn handle_key(&mut self, key: &KeyInput) -> (cmd: Command)
        ensures
            cmd == key_command_of(*key),
            *final(self) == apply_command(*old(self), cmd),
            final(self).fog_enabled == (old(self).fog_enabled != (cmd == Command::ToggleFog)),
            final(self).use_phong == (old(self).use_phong != (cmd == Command::TogglePhong)),
            final(self).day_night_auto == (old(self).day_night_auto != (cmd == Command::ToggleDayNightAuto)),
            final(self).manual_drive == (old(self).manual_drive != (cmd == Command::ToggleDrive)),
            final(self).active_camera == match cmd {
                Command::SelectCamera(n) => n,
                _ => old(self).active_camera,
            },
            final(self).show_panel == old(self).show_panel,
            final(self).mouse_look == old(self).mouse_look,
            final(self).keys == old(self).keys,
    {
        let cmd = key_command(key);
        self.apply(cmd);
        cmd
    }

    fn track_movement_key(&mut self, key: &KeyInput, pressed: bool)
        ensures
            *final(self) == (ControlState {
                keys: track_movement(old(self).keys, *key, pressed),
                ..*old(self)
            }),
    {
        let c = match key {
            KeyInput::Character(text) => key_char(text),
            _ => None,
        };
        self.keys = movement_update(self.keys, c, pressed);
    }

    /// A key went down (`pressed`) or up. `consumed` tells that the options panel took
    /// the key, in which case its command is not carried out.
    ///
    /// Tab presses show or hide the panel; W/A/S/D/Q/E and the arrow keys are tracked in
    /// every mode (the frame plan decides what they move); a press
    /// the panel did not take is then handled as by [`ControlState::handle_key`].
    pub fn key_event(&mut self, key: &KeyInput, pressed: bool, consumed: bool) -> (cmd: Command)
        ensures
            cmd == if pressed && !consumed {
                key_command_of(*key)
            } else {
                Command::Nothing
            },
            *final(self) == apply_command(tracked_state(*old(self), *key, pressed), cmd),
            final(self).fog_enabled == (old(self).fog_enabled != (cmd == Command::ToggleFog)),
            final(self).use_phong == (old(self).use_phong != (cmd == Command::TogglePhong)),
            final(self).day_night_auto == (old(self).day_night_auto != (cmd == Command::ToggleDayNightAuto)),
            final(self).manual_drive == (old(self).manual_drive != (cmd == Command::ToggleDrive)),
            final(self).active_camera == match cmd {
                Command::SelectCamera(n) => n,
                _ => old(self).active_camera,
            },
    {
        let is_tab = match key {
            KeyInput::Tab => true,
            _ => false,
        };
        if pressed && is_tab {
            self.show_panel = !self.show_panel;
        }
        self.track_movement_key(key, pressed);
        self.keys = arrow_update(self.keys, key, pressed);
        assert(*self == tracked_state(*old(self), *key, pressed));
        if pressed && !consumed {
            self.handle_key(key)
        } else {
            Command::Nothing
        }
    }

    /// The right mouse button went down or up.
    pub fn set_mouse_look(&mut self, held: bool)
        ensures
            *final(self) == (ControlState { mouse_look: held, ..*old(self) }),
    {
        self.mouse_look = held;
    }

    /// Mouse motion turns the free camera only while it is active and the right
    /// button is held.
    pub fn mouse_turns_camera(&self) -> (b: bool)
        ensures
            b == (self.active_camera == FREE_CAMERA && self.mouse_look),
    {
        self.active_camera == FREE_CAMERA && self.mouse_look
    }

    /// What this frame does with the held keys.
    pub fn frame_plan(&self) -> (plan: FramePlan)
        ensures
            plan == frame_plan_of(*self),
            ({
                let k = self.keys;
                let fwd: int = (if k.w { 1int } else { 0int }) - (if k.s { 1int } else { 0int });
                let turn: int = (if k.a { 1int } else { 0int }) - (if k.d { 1int } else { 0int });
                let strafe: int = (if k.d { 1int } else { 0int }) - (if k.a { 1int } else { 0int });
                let lift: int = (if k.e { 1int } else { 0int }) - (if k.q { 1int } else { 0int });
                let aim_yaw: int = (if k.left { 1int } else { 0int }) - (if k.right { 1int } else { 0int });
                let aim_pitch: int = (if k.up { 1int } else { 0int }) - (if k.down { 1int } else { 0int });
                let driving = self.manual_drive && self.active_camera != FREE_CAMERA;
                &&& plan.animate == !self.manual_drive
                &&& driving ==> plan.drive == Some((fwd as i8, (if fwd < 0 { -turn } else { turn }) as i8))
                &&& !driving ==> plan.drive is None
                &&& self.active_camera == FREE_CAMERA ==> plan.free_move == Some((fwd as i8, strafe as i8, lift as i8))
                &&& self.active_camera != FREE_CAMERA ==> plan.free_move is None
                &&& plan.spot_aim == (aim_yaw as i8, aim_pitch as i8)
            }),
    {
        let k = self.keys;
        let free = self.active_camera == FREE_CAMERA;
        let forward = axis_value(k.w, k.s);
        let turn = axis_value(k.a, k.d);
        let drive = if self.manual_drive && !free {
            let steer: i8 = if forward < 0 {
                -turn
            } else {
                turn
            };
            Some((forward, steer))
        } else {
            None
        };
        let free_move = if free {
            Some((forward, axis_value(k.d, k.a), axis_value(k.e, k.q)))
        } else {
            None
        };
        let spot_aim = (axis_value(k.left, k.right), axis_value(k.up, k.down));
        FramePlan { animate: !self.manual_drive, drive, free_move, spot_aim }
    }
}

/// Pressing a switch key twice gives back the state it started from; every other key,
/// pressed twice, does what it did the first time.
pub proof fn lemma_command_twice(st: ControlState, cmd: Command)
    ensures
        is_toggle(cmd) ==> apply_command(apply_command(st, cmd), cmd) == st,
        !is_toggle(cmd) ==> apply_command(apply_command(st, cmd), cmd) == apply_command(st, cmd),
{
}

/// Key events keep the selected camera one of the five cameras.
pub proof fn lemma_camera_stays_valid(st: ControlState, key: KeyInput, pressed: bool, consumed: bool)
    requires
        st.active_camera < CAMERA_COUNT,
    ensures
        apply_command(
            tracked_state(st, key, pressed),
            if pressed && !consumed {
                key_command_of(key)
            } else {
                Command::Nothing
            },
        ).active_camera < CAMERA_COUNT,
{
}

/// A frame never moves the object both by animation and by hand, never drives the object
/// while the free camera takes the movement keys, and the arrow keys aim the headlights
/// in every camera mode, in parallel with driving or flying.
pub proof fn lemma_frame_plan_exclusive(st: ControlState)
    ensures
        frame_plan_of(st).animate <==> !st.manual_drive,
        frame_plan_of(st).drive is Some ==> !frame_plan_of(st).animate,
        !(frame_plan_of(st).drive is Some && frame_plan_of(st).free_move is Some),
        frame_plan_of(st).free_move is Some <==> st.active_camera == FREE_CAMERA,
        frame_plan_of(st).spot_aim == (axis(st.keys.left, st.keys.right) as i8, axis(
            st.keys.up,
            st.keys.down,
        ) as i8),
{
}

/// A released key only updates the held-key flags.
pub proof fn lemma_release_only_tracks(st: ControlState, key: KeyInput)
    ensures
        apply_command(tracked_state(st, key, false), Command::Nothing) == (ControlState {
            keys: tracked_state(st, key, false).keys,
            ..st
        }),
{
}

/// Held-key flags follow the keyboard in every mode: after an event on a movement or
/// arrow key, its flag tells whether the key is down, so no key stays held after its
/// release, whatever camera or drive mode was active.
pub proof fn lemma_held_keys_follow_events(st: ControlState, key: KeyInput, pressed: bool, consumed: bool)
    ensures
        ({
            let after = apply_command(
                tracked_state(st, key, pressed),
                if pressed && !consumed {
                    key_command_of(key)
                } else {
                    Command::Nothing
                },
            ).keys;
            &&& (key_char_of(key) == Some('w') || key_char_of(key) == Some('W')) ==> after.w == pressed
            &&& (key_char_of(key) == Some('a') || key_char_of(key) == Some('A')) ==> after.a == pressed
            &&& (key_char_of(key) == Some('s') || key_char_of(key) == Some('S')) ==> after.s == pressed
            &&& (key_char_of(key) == Some('d') || key_char_of(key) == Some('D')) ==> after.d == pressed
            &&& (key_char_of(key) == Some('q') || key_char_of(key) == Some('Q')) ==> after.q == pressed
            &&& (key_char_of(key) == Some('e') || key_char_of(key) == Some('E')) ==> after.e == pressed
            &&& key is ArrowLeft ==> after.left == pressed
            &&& key is ArrowRight ==> after.right == pressed
            &&& key is ArrowUp ==> after.up == pressed
            &&& key is ArrowDown ==> after.down == pressed
        }),
{
}

/// Each switch command flips its own switch and nothing else; a camera key selects that
/// camera; commands on continuous settings change none of these.
pub proof fn lemma_command_effects(st: ControlState, cmd: Command)
    ensures
        apply_command(st, cmd).fog_enabled == (st.fog_enabled != (cmd == Command::ToggleFog)),
        apply_command(st, cmd).use_phong == (st.use_phong != (cmd == Command::TogglePhong)),
        apply_command(st, cmd).day_night_auto == (st.day_night_auto != (cmd == Command::ToggleDayNightAuto)),
        apply_command(st, cmd).manual_drive == (st.manual_drive != (cmd == Command::ToggleDrive)),
        apply_command(st, cmd).active_camera == match cmd {
            Command::SelectCamera(n) => n,
            _ => st.active_camera,
        },
        apply_command(st, cmd).show_panel == st.show_panel,
        apply_command(st, cmd).mouse_look == st.mouse_look,
        apply_command(st, cmd).keys == st.keys,
{
}

/// The keyboard table: 1-5 select cameras, P shading, F fog, + or = and - fog density,
/// N the day/night cycle, O and L the day factor, Space the drive mode, Esc quits; every
/// other key does nothing.
pub proof fn lemma_key_table(key: KeyInput)
    ensures
        key is Escape ==> key_command_of(key) == Command::Quit,
        key is Space ==> key_command_of(key) == Command::ToggleDrive,
        !(key is Character || key is Escape || key is Space) ==> key_command_of(key) == Command::Nothing,
        key_char_of(key) == Some('1') ==> key_command_of(key) == Command::SelectCamera(0),
        key_char_of(key) == Some('2') ==> key_command_of(key) == Command::SelectCamera(1),
        key_char_of(key) == Some('3') ==> key_command_of(key) == Command::SelectCamera(2),
        key_char_of(key) == Some('4') ==> key_command_of(key) == Command::SelectCamera(3),
        key_char_of(key) == Some('5') ==> key_command_of(key) == Command::SelectCamera(4),
        key_char_of(key) == Some('p') || key_char_of(key) == Some('P') ==> key_command_of(key) == Command::TogglePhong,
        key_char_of(key) == Some('f') || key_char_of(key) == Some('F') ==> key_command_of(key) == Command::ToggleFog,
        key_char_of(key) == Some('+') || key_char_of(key) == Some('=') ==> key_command_of(key) == Command::FogDenser,
        key_char_of(key) == Some('-') ==> key_command_of(key) == Command::FogThinner,
        key_char_of(key) == Some('n') || key_char_of(key) == Some('N') ==> key_command_of(key) == Command::ToggleDayNightAuto,
        key_char_of(key) == Some('o') || key_char_of(key) == Some('O') ==> key_command_of(key) == Command::Brighter,
        key_char_of(key) == Some('l') || key_char_of(key) == Some('L') ==> key_command_of(key) == Command::Darker,
        key is Character && key_char_of(key) is None ==> key_command_of(key) == Command::Nothing,
{
}

/// Manual steering: the forward axis is W minus S; the turn is A minus D, mirrored only
/// while reversing, so A and D turn the object in place when neither W nor S is held.
pub proof fn lemma_drive_steering(st: ControlState)
    requires
        st.manual_drive,
        st.active_camera != FREE_CAMERA,
    ensures
        ({
            let k = st.keys;
            let fwd: int = (if k.w { 1int } else { 0int }) - (if k.s { 1int } else { 0int });
            let turn: int = (if k.a { 1int } else { 0int }) - (if k.d { 1int } else { 0int });
            &&& frame_plan_of(st).drive is Some
            &&& frame_plan_of(st).drive.unwrap().0 == fwd
            &&& fwd >= 0 ==> frame_plan_of(st).drive.unwrap().1 == turn
            &&& fwd < 0 ==> frame_plan_of(st).drive.unwrap().1 == -turn
        }),
{
}

} // verus!
