//! The platform context that widgets talk to: requests to the operating
//! system, redraw bookkeeping, key focus, next-frame callbacks, signals and
//! triggers. The context only records what is asked of it; the host's event
//! loop carries the requests out.

use vstd::prelude::*;

verus! {

#[derive(Clone, Copy, Debug, PartialEq, Eq, Structural)]
pub struct DrawListId(pub usize);

#[derive(Clone, Copy, Debug, PartialEq, Eq, Structural)]
pub struct PassId(pub usize);

#[derive(Clone, Copy, Debug, PartialEq, Eq, Structural)]
pub struct WindowId(pub usize);

/// A range of instances in a draw list.
#[derive(Clone, Copy, Debug, PartialEq, Eq, Structural)]
pub struct InstanceArea {
    pub draw_list_id: DrawListId,
    pub redraw_id: u64,
    pub instance_offset: usize,
    pub instance_count: usize,
}

/// A whole draw list.
#[derive(Clone, Copy, Debug, PartialEq, Eq, Structural)]
pub struct DrawListArea {
    pub draw_list_id: DrawListId,
    pub redraw_id: u64,
}

/// What a widget occupies on screen.
#[derive(Clone, Copy, Debug, PartialEq, Eq, Structural)]
pub enum Area {
    Empty,
    Instance(InstanceArea),
    DrawList(DrawListArea),
}

#[derive(Clone, Copy, Debug, PartialEq, Eq, Structural)]
pub enum MouseCursor {
    Hidden,
    Default,
    Crosshair,
    Hand,
    Arrow,
    Move,
    Text,
    Wait,
    Help,
    NotAllowed,
    EResize,
    NResize,
    SResize,
    WResize,
    ColResize,
    RowResize,
}

#[derive(Clone, Copy, Debug, PartialEq, Eq, Structural)]
pub enum OsType {
    Unknown,
    Windows,
    Macos,
    Ios,
    Android,
    LinuxWindow,
    LinuxDirect,
    Web,
}

#[derive(Clone, Copy, Debug, PartialEq, Eq, Structural)]
pub enum GpuPerformance {
    Tier1,
    Tier2,
    Tier3,
    Tier4,
    Tier5,
}

pub struct GpuInfo {
    pub min_uniform_vectors: u32,
    pub performance: GpuPerformance,
    pub vendor: String,
    pub renderer: String,
}

/// A position in device units.
#[derive(Clone, Copy, Debug, PartialEq, Eq, Structural)]
pub struct Vec2 {
    pub x: i64,
    pub y: i64,
}

/// A running timer; the timer 0 is no timer.
#[derive(Clone, Copy, Debug, PartialEq, Eq, Structural)]
pub struct Timer(pub u64);

#[derive(Clone, Copy, Debug, PartialEq, Eq, Structural)]
pub struct Signal(pub u64);

#[derive(Clone, Copy, Debug, PartialEq, Eq, Structural)]
pub struct Trigger {
    pub id: u64,
    pub from: Area,
}

#[derive(Clone, Copy, Debug, PartialEq, Eq, Structural)]
pub struct NextFrame(pub u64);

/// What stands for the type of a global value: the host keeps one value per type.
#[derive(Clone, Copy, Debug, PartialEq, Eq, Structural)]
pub struct GlobalId(pub u64);

/// An open web socket.
#[derive(Clone, Copy, Debug, PartialEq, Eq, Structural)]
pub struct WebSocket(pub u64);

#[derive(Clone, Copy, Debug, PartialEq, Eq, Structural)]
pub enum WebSocketAutoReconnect {
    Yes,
    No,
}

/// A menu description, by the identifier under which the host knows it.
#[derive(Clone, Copy, Debug, PartialEq, Eq, Structural)]
pub struct Menu(pub u64);

/// Something being dragged, by the identifier under which the host knows it.
#[derive(Clone, Copy, Debug, PartialEq, Eq, Structural)]
pub struct DraggedItem(pub u64);

/// A request to the operating system.
#[derive(Clone, Copy, Debug, PartialEq, Eq, Structural)]
pub enum CxOsOp {
    CreateWindow(WindowId),
    CloseWindow(WindowId),
    MinimizeWindow(WindowId),
    MaximizeWindow(WindowId),
    FullscreenWindow(WindowId),
    NormalizeWindow(WindowId),
    RestoreWindow(WindowId),
    SetTopmost(WindowId, bool),
    XrStartPresenting(WindowId),
    XrStopPresenting(WindowId),
    ShowTextIME(Vec2),
    HideTextIME,
    SetCursor(MouseCursor),
    /// `interval` is in microseconds.
    StartTimer { timer_id: u64, interval: u64, repeats: bool },
    StopTimer(u64),
    StartDragging(DraggedItem),
    UpdateMenu(Menu),
}

/// A resource that the application depends on. `data` is `None` until loading has been
/// tried, then the bytes or the reason why there are none.
pub struct CxDependency {
    pub path: String,
    pub data: Option<Result<Vec<u8>, String>>,
}

#[derive(Clone, Copy, Debug, PartialEq, Eq, Structural)]
pub struct CxDrawList {
    /// The pass that the list is drawn in.
    pub pass_id: Option<PassId>,
}

#[derive(Clone, Copy, Debug, PartialEq, Eq, Structural)]
pub enum CxPassParent {
    Window(WindowId),
    Pass(PassId),
    /// The pass is drawn on its own.
    Detached,
}

#[derive(Clone, Copy, Debug, PartialEq, Eq, Structural)]
pub struct CxPass {
    pub parent: CxPassParent,
    pub main_draw_list_id: Option<DrawListId>,
    pub paint_dirty: bool,
}

/// What the next draw event will redraw.
pub struct DrawEvent {
    pub redraw_all: bool,
    /// Draw lists to redraw, each once.
    pub draw_lists: Vec<DrawListId>,
    /// Draw lists to redraw with everything below them, each once.
    pub draw_lists_and_children: Vec<DrawListId>,
}

#[derive(Clone, Copy, Debug, PartialEq, Eq, Structural)]
pub struct CxKeyboard {
    pub prev_key_focus: Area,
    pub next_key_focus: Area,
    pub key_focus: Area,
    pub text_ime_dismissed: bool,
}

#[derive(Clone, Copy, Debug, PartialEq, Eq, Structural)]
pub struct CxFingerCapture {
    pub digit_id: u64,
    pub area: Area,
    pub sweep_area: Area,
}

#[derive(Clone, Copy, Debug, PartialEq, Eq, Structural)]
pub struct CxFingerHover {
    pub digit_id: u64,
    pub area: Area,
}

pub struct CxFingers {
    pub hovers: Vec<CxFingerHover>,
    pub captures: Vec<CxFingerCapture>,
    pub sweep_lock: Option<Area>,
}

#[derive(Clone, Copy, Debug, PartialEq, Eq, Structural)]
pub struct CxDragDrop {
    pub drag_area: Area,
    pub next_drag_area: Area,
}

/// The triggers sent to one area, each once.
pub struct AreaTriggers {
    pub area: Area,
    pub triggers: Vec<Trigger>,
}

/// The platform context.
pub struct Cx {
    pub dependencies: Vec<CxDependency>,
    pub redraw_id: u64,
    pub platform_type: OsType,
    pub cpu_cores: usize,
    pub gpu_info: GpuInfo,
    /// Requests to the operating system, in the order in which they were made.
    pub platform_ops: Vec<CxOsOp>,
    pub timer_id: u64,
    pub draw_lists: Vec<CxDrawList>,
    pub passes: Vec<CxPass>,
    pub new_draw_event: DrawEvent,
    pub keyboard: CxKeyboard,
    pub fingers: CxFingers,
    pub finger_drag: CxDragDrop,
    pub next_frame_id: u64,
    /// The next-frame callbacks asked for, each once.
    pub new_next_frames: Vec<NextFrame>,
    /// The signals sent, each once.
    pub signals: Vec<Signal>,
    /// The triggers sent, one entry per area.
    pub triggers: Vec<AreaTriggers>,
    /// The types of the global values, in the order in which the host holds the values.
    pub globals: Vec<GlobalId>,
}

/// What the operating system layer offers to the context.
pub trait CxOsApi {
    fn post_signal(signal: Signal);

    fn spawn_thread<F>(&mut self, f: F) where F: FnOnce() + Send + 'static;

    fn web_socket_open(&mut self, url: String, rec: WebSocketAutoReconnect) -> WebSocket;

    fn web_socket_send(&mut self, socket: WebSocket, data: Vec<u8>);
}

/// A part of the context that a call may change.
pub enum CxPart {
    /// The requests to the operating system.
    PlatformOps,
    /// The requests to the operating system and the number of the last timer.
    Timers,
    Passes,
    NewDrawEvent,
    Focus,
    /// The next-frame callbacks asked for and the number of the next one.
    NextFrames,
    Signals,
    Triggers,
    Globals,
}

impl Area {
    /// The draw list that the area lies in.
    pub open spec fn spec_draw_list_id(self) -> Option<DrawListId> {
        match self {
            Area::Empty => None,
            Area::Instance(instance) => Some(instance.draw_list_id),
            Area::DrawList(list) => Some(list.draw_list_id),
        }
    }

    /// The draw list that the area lies in.
    pub fn draw_list_id(&self) -> (id: Option<DrawListId>)
        ensures
            id == self.spec_draw_list_id(),
    {
        match self {
            Area::Empty => None,
            Area::Instance(instance) => Some(instance.draw_list_id),
            Area::DrawList(list) => Some(list.draw_list_id),
        }
    }

    /// `new` where the area is `old`, else the area itself.
    pub open spec fn spec_replaced(self, old: Area, new: Area) -> Area {
        if self == old {
            new
        } else {
            self
        }
    }
}

/// `s` with `x` added at the end unless it is there already.
pub open spec fn spec_push_unique<T>(s: Seq<T>, x: T) -> Seq<T> {
    if s.contains(x) {
        s
    } else {
        s.push(x)
    }
}

/// Index of the first request to set the cursor among the requests from `from` on, or the
/// number of requests if there is none.
pub open spec fn spec_first_set_cursor(ops: Seq<CxOsOp>, from: int) -> int
    decreases ops.len() - from,
{
    if 0 <= from < ops.len() && !(ops[from] is SetCursor) {
        spec_first_set_cursor(ops, from + 1)
    } else {
        from
    }
}

/// Whether the pass `id` lies at most `fuel` steps below a pass without a parent pass.
pub open spec fn spec_rooted(passes: Seq<CxPass>, id: int, fuel: nat) -> bool
    decreases fuel,
{
    &&& 0 <= id < passes.len()
    &&& fuel > 0
    &&& passes[id].parent matches CxPassParent::Pass(parent) ==> spec_rooted(
        passes,
        parent.0 as int,
        (fuel - 1) as nat,
    )
}

/// The draw lists to redraw with their children, after the main draw lists of the pass `id`
/// and of the passes above it have been added to `lists`, each unless it is there already.
pub open spec fn spec_redraw_parents(
    passes: Seq<CxPass>,
    id: int,
    fuel: nat,
    lists: Seq<DrawListId>,
) -> Seq<DrawListId>
    decreases fuel,
{
    if 0 <= id < passes.len() && fuel > 0 {
        let here = match passes[id].main_draw_list_id {
            Some(list) => spec_push_unique(lists, list),
            None => lists,
        };
        match passes[id].parent {
            CxPassParent::Pass(parent) => spec_redraw_parents(
                passes,
                parent.0 as int,
                (fuel - 1) as nat,
                here,
            ),
            _ => here,
        }
    } else {
        lists
    }
}

/// Every pass exists below a pass without a parent pass: no pass is its own ancestor.
pub open spec fn spec_all_rooted(passes: Seq<CxPass>) -> bool {
    forall|k: int| 0 <= k < passes.len() ==> spec_rooted(passes, k, passes.len())
}

/// Whether the pass `parent` is the parent of the pass `child`.
pub open spec fn spec_is_child(passes: Seq<CxPass>, parent: int, child: int) -> bool {
    passes[child].parent matches CxPassParent::Pass(id) && id.0 == parent
}

/// Number of passes above the pass `id`, counted as far as `fuel` steps reach.
pub open spec fn spec_depth(passes: Seq<CxPass>, id: int, fuel: nat) -> nat
    decreases fuel,
{
    if 0 <= id < passes.len() && fuel > 0 {
        match passes[id].parent {
            CxPassParent::Pass(parent) => 1 + spec_depth(passes, parent.0 as int, (fuel - 1) as nat),
            _ => 0,
        }
    } else {
        0
    }
}

/// Number of passes above the pass `id`.
pub open spec fn spec_level(passes: Seq<CxPass>, id: int) -> nat {
    spec_depth(passes, id, passes.len())
}

/// A pass that lies within `fuel` steps of a root has fewer than `fuel` passes above it, and
/// their number is the same however far one counts beyond that.
proof fn lemma_depth(passes: Seq<CxPass>, id: int, fuel: nat, other: nat)
    requires
        spec_rooted(passes, id, fuel),
        spec_rooted(passes, id, other),
    ensures
        spec_depth(passes, id, fuel) < fuel,
        spec_depth(passes, id, fuel) == spec_depth(passes, id, other),
    decreases fuel,
{
    if let CxPassParent::Pass(parent) = passes[id].parent {
        lemma_depth(passes, parent.0 as int, (fuel - 1) as nat, (other - 1) as nat);
    }
}

/// A pass lies one level below its parent pass, and no level reaches the number of passes.
pub proof fn lemma_child_level(passes: Seq<CxPass>, parent: int, child: int)
    requires
        spec_all_rooted(passes),
        0 <= parent < passes.len(),
        0 <= child < passes.len(),
        spec_is_child(passes, parent, child),
    ensures
        spec_level(passes, child) == spec_level(passes, parent) + 1,
        spec_level(passes, child) < passes.len(),
{
    assert(spec_rooted(passes, child, passes.len()));
    assert(spec_rooted(passes, parent, passes.len()));
    assert(spec_rooted(passes, parent, (passes.len() - 1) as nat));
    lemma_depth(passes, parent, passes.len(), (passes.len() - 1) as nat);
    lemma_depth(passes, child, passes.len(), passes.len());
}

/// `lists` with the main draw list of `pass` added unless it is there already.
pub open spec fn spec_with_main_list(pass: CxPass, lists: Seq<DrawListId>) -> Seq<DrawListId> {
    match pass.main_draw_list_id {
        Some(list) => spec_push_unique(lists, list),
        None => lists,
    }
}

/// The draw lists to redraw with their children, after the main draw lists of the pass `id`
/// and of all passes below it have been added to `lists`, each unless it is there already:
/// first that of the pass itself, then those of its child passes in the order of their
/// indices, each followed by those of its own children.
pub open spec fn spec_redraw_tree(passes: Seq<CxPass>, id: int, lists: Seq<DrawListId>) -> Seq<
    DrawListId,
>
    decreases passes.len() - spec_level(passes, id), passes.len() + 1,
    when spec_all_rooted(passes) && 0 <= id < passes.len()
{
    spec_redraw_children(passes, id, 0, spec_with_main_list(passes[id], lists))
}

/// `lists` after the child passes of the pass `id` with an index of `from` or more, and all
/// passes below them, have added their main draw lists.
pub open spec fn spec_redraw_children(
    passes: Seq<CxPass>,
    id: int,
    from: int,
    lists: Seq<DrawListId>,
) -> Seq<DrawListId>
    decreases passes.len() - spec_level(passes, id), passes.len() - from,
    when spec_all_rooted(passes) && 0 <= id < passes.len() && 0 <= from
{
    if from >= passes.len() {
        lists
    } else if spec_is_child(passes, id, from) {
        proof {
            lemma_child_level(passes, id, from);
        }
        spec_redraw_children(passes, id, from + 1, spec_redraw_tree(passes, from, lists))
    } else {
        spec_redraw_children(passes, id, from + 1, lists)
    }
}

impl CxKeyboard {
    /// The keyboard state after `old` has been replaced by `new` wherever it was referred to.
    pub open spec fn spec_update_area(self, old: Area, new: Area) -> CxKeyboard {
        CxKeyboard {
            prev_key_focus: self.prev_key_focus.spec_replaced(old, new),
            next_key_focus: self.next_key_focus.spec_replaced(old, new),
            key_focus: self.key_focus.spec_replaced(old, new),
            text_ime_dismissed: self.text_ime_dismissed,
        }
    }

    /// Asks for the key focus to go to `focus_area` at the next focus change.
    pub fn set_key_focus(&mut self, focus_area: Area)
        ensures
            *final(self) == (CxKeyboard {
                next_key_focus: focus_area,
                text_ime_dismissed: false,
                ..*old(self)
            }),
    {
        self.text_ime_dismissed = false;
        self.next_key_focus = focus_area;
    }

    /// Asks for the key focus to go back to the area that had it before.
    pub fn revert_key_focus(&mut self)
        ensures
            *final(self) == (CxKeyboard { next_key_focus: old(self).prev_key_focus, ..*old(self) }),
    {
        self.next_key_focus = self.prev_key_focus;
    }

    /// Whether `focus_area` has the key focus.
    pub fn has_key_focus(&self, focus_area: Area) -> (r: bool)
        ensures
            r == (self.key_focus == focus_area),
    {
        self.key_focus == focus_area
    }

    /// Replaces `old_area` by `new_area` wherever the keyboard state refers to it.
    pub fn update_area(&mut self, old_area: Area, new_area: Area)
        ensures
            *final(self) == old(self).spec_update_area(old_area, new_area),
    {
        if self.key_focus == old_area {
            self.key_focus = new_area;
        }
        if self.prev_key_focus == old_area {
            self.prev_key_focus = new_area;
        }
        if self.next_key_focus == old_area {
            self.next_key_focus = new_area;
        }
    }
}

impl CxDragDrop {
    /// Replaces `old_area` by `new_area` as the area being dragged over.
    pub fn update_area(&mut self, old_area: Area, new_area: Area)
        ensures
            *final(self) == (CxDragDrop {
                drag_area: old(self).drag_area.spec_replaced(old_area, new_area),
                ..*old(self)
            }),
    {
        if self.drag_area == old_area {
            self.drag_area = new_area;
        }
    }
}

impl CxFingerCapture {
    pub open spec fn spec_update_area(self, old: Area, new: Area) -> CxFingerCapture {
        CxFingerCapture {
            digit_id: self.digit_id,
            area: self.area.spec_replaced(old, new),
            sweep_area: self.sweep_area.spec_replaced(old, new),
        }
    }
}

impl CxFingerHover {
    pub open spec fn spec_update_area(self, old: Area, new: Area) -> CxFingerHover {
        CxFingerHover { digit_id: self.digit_id, area: self.area.spec_replaced(old, new) }
    }
}

impl CxFingers {
    /// Whether `after` is this state with `old` replaced by `new` wherever it was referred
    /// to.
    pub open spec fn spec_updated(&self, after: &CxFingers, old: Area, new: Area) -> bool {
        &&& after.hovers@ == self.hovers@.map_values(
            |h: CxFingerHover| h.spec_update_area(old, new),
        )
        &&& after.captures@ == self.captures@.map_values(
            |c: CxFingerCapture| c.spec_update_area(old, new),
        )
        &&& after.sweep_lock == (if self.sweep_lock == Some(old) {
            Some(new)
        } else {
            self.sweep_lock
        })
    }

    /// Replaces `old_area` by `new_area` wherever the finger state refers to it.
    pub fn update_area(&mut self, old_area: Area, new_area: Area)
        ensures
            old(self).spec_updated(final(self), old_area, new_area),
    {
        let mut i: usize = 0;
        while i < self.hovers.len()
            invariant
                i <= self.hovers@.len(),
                self.hovers@.len() == old(self).hovers@.len(),
                self.captures == old(self).captures,
                self.sweep_lock == old(self).sweep_lock,
                forall|k: int|
                    0 <= k < i ==> self.hovers@[k] == (#[trigger] old(
                        self,
                    ).hovers@[k]).spec_update_area(old_area, new_area),
                forall|k: int|
                    i <= k < self.hovers@.len() ==> self.hovers@[k] == old(self).hovers@[k],
            decreases self.hovers@.len() - i,
        {
            let hover = self.hovers[i];
            if hover.area == old_area {
                self.hovers.set(i, CxFingerHover { digit_id: hover.digit_id, area: new_area });
            }
            i = i + 1;
        }
        let mut j: usize = 0;
        while j < self.captures.len()
            invariant
                j <= self.captures@.len(),
                self.captures@.len() == old(self).captures@.len(),
                self.hovers@ =~= old(self).hovers@.map_values(
                    |h: CxFingerHover| h.spec_update_area(old_area, new_area),
                ),
                self.sweep_lock == old(self).sweep_lock,
                forall|k: int|
                    0 <= k < j ==> self.captures@[k] == (#[trigger] old(
                        self,
                    ).captures@[k]).spec_update_area(old_area, new_area),
                forall|k: int|
                    j <= k < self.captures@.len() ==> self.captures@[k] == old(self).captures@[k],
            decreases self.captures@.len() - j,
        {
            let capture = self.captures[j];
            let area = if capture.area == old_area {
                new_area
            } else {
                capture.area
            };
            let sweep_area = if capture.sweep_area == old_area {
                new_area
            } else {
                capture.sweep_area
            };
            self.captures.set(j, CxFingerCapture { digit_id: capture.digit_id, area, sweep_area });
            j = j + 1;
        }
        assert(self.captures@ =~= old(self).captures@.map_values(
            |c: CxFingerCapture| c.spec_update_area(old_area, new_area),
        ));
        if let Some(lock) = self.sweep_lock {
            if lock == old_area {
                self.sweep_lock = Some(new_area);
            }
        }
    }
}

/// Adds `id` at the end of `list` unless it is there already.
pub fn push_unique_draw_list(list: &mut Vec<DrawListId>, id: DrawListId)
    ensures
        final(list)@ == spec_push_unique(old(list)@, id),
{
    let mut i: usize = 0;
    while i < list.len()
        invariant
            i <= list@.len(),
            list@ == old(list)@,
            forall|k: int| 0 <= k < i ==> list@[k] != id,
        decreases list@.len() - i,
    {
        if list[i] == id {
            assert(list@.contains(id));
            return ;
        }
        i = i + 1;
    }
    list.push(id);
}

/// Adds `frame` at the end of `list` unless it is there already.
pub fn push_unique_next_frame(list: &mut Vec<NextFrame>, frame: NextFrame)
    ensures
        final(list)@ == spec_push_unique(old(list)@, frame),
{
    let mut i: usize = 0;
    while i < list.len()
        invariant
            i <= list@.len(),
            list@ == old(list)@,
            forall|k: int| 0 <= k < i ==> list@[k] != frame,
        decreases list@.len() - i,
    {
        if list[i] == frame {
            assert(list@.contains(frame));
            return ;
        }
        i = i + 1;
    }
    list.push(frame);
}

/// Adds `signal` at the end of `list` unless it is there already.
pub fn push_unique_signal(list: &mut Vec<Signal>, signal: Signal)
    ensures
        final(list)@ == spec_push_unique(old(list)@, signal),
{
    let mut i: usize = 0;
    while i < list.len()
        invariant
            i <= list@.len(),
            list@ == old(list)@,
            forall|k: int| 0 <= k < i ==> list@[k] != signal,
        decreases list@.len() - i,
    {
        if list[i] == signal {
            assert(list@.contains(signal));
            return ;
        }
        i = i + 1;
    }
    list.push(signal);
}

/// A copy of `list` with `trigger` added at the end unless it is there already.
pub fn with_trigger(list: &Vec<Trigger>, trigger: Trigger) -> (out: Vec<Trigger>)
    ensures
        out@ == spec_push_unique(list@, trigger),
{
    let mut out: Vec<Trigger> = Vec::new();
    let mut found = false;
    let mut i: usize = 0;
    while i < list.len()
        invariant
            i <= list@.len(),
            out@ == list@.subrange(0, i as int),
            found == exists|k: int| 0 <= k < i && list@[k] == trigger,
        decreases list@.len() - i,
    {
        if list[i] == trigger {
            found = true;
        }
        out.push(list[i]);
        i = i + 1;
        assert(out@ =~= list@.subrange(0, i as int));
    }
    assert(out@ =~= list@);
    if !found {
        out.push(trigger);
    }
    out
}

/// Index of the first entry for `area` among the entries from `from` on, or the number of
/// entries if there is none.
pub open spec fn spec_find_area(entries: Seq<AreaTriggers>, area: Area, from: int) -> int
    decreases entries.len() - from,
{
    if 0 <= from < entries.len() && entries[from].area != area {
        spec_find_area(entries, area, from + 1)
    } else {
        from
    }
}

/// Index of the pass that the draw list `id` is drawn in, or -1 if it is drawn in none.
pub open spec fn spec_pass_of(draw_lists: Seq<CxDrawList>, id: DrawListId) -> int {
    match draw_lists[id.0 as int].pass_id {
        Some(pass) => pass.0 as int,
        None => -1,
    }
}

/// Whether a request to start dragging is among `ops`.
pub open spec fn spec_is_dragging(ops: Seq<CxOsOp>) -> bool {
    exists|k: int| 0 <= k < ops.len() && (#[trigger] ops[k]) is StartDragging
}

/// The message for a dependency that is not there or not loaded yet: the words
/// "Dependency not loaded" and the path.
///
/// Trusted: the body is `format!` of std, which writes the literal and then the argument as
/// it stands.
#[verifier::external_body]
fn dependency_not_loaded(path: &str) -> (message: String)
    ensures
        message@ == "Dependency not loaded "@ + path@,
{
    format!("Dependency not loaded {}", path)
}

impl Cx {
    /// Every draw list lies in a pass that exists, every parent of a pass exists, and no pass
    /// is its own ancestor.
    pub open spec fn wf(&self) -> bool {
        &&& forall|k: int|
            0 <= k < self.draw_lists@.len() ==> ((#[trigger] self.draw_lists@[k]).pass_id matches Some(
                pass,
            ) ==> pass.0 < self.passes@.len())
        &&& spec_all_rooted(self.passes@)
    }

    /// Whether the pass `id` exists and is not its own ancestor.
    pub fn is_rooted(&self, id: PassId) -> (ok: bool)
        ensures
            ok == spec_rooted(self.passes@, id.0 as int, self.passes@.len()),
    {
        let count = self.passes.len();
        let mut walk = id;
        let mut steps: usize = 0;
        while steps < count
            invariant
                count == self.passes@.len(),
                steps <= count,
                spec_rooted(self.passes@, id.0 as int, self.passes@.len()) == spec_rooted(
                    self.passes@,
                    walk.0 as int,
                    (count - steps) as nat,
                ),
            decreases count - steps,
        {
            if walk.0 >= count {
                return false;
            }
            match self.passes[walk.0].parent {
                CxPassParent::Pass(parent) => {
                    walk = parent;
                    steps = steps + 1;
                },
                _ => {
                    return true;
                },
            }
        }
        false
    }

    /// Whether the context is well formed.
    pub fn is_valid(&self) -> (ok: bool)
        ensures
            ok == self.wf(),
    {
        let mut k: usize = 0;
        while k < self.draw_lists.len()
            invariant
                k <= self.draw_lists@.len(),
                forall|i: int|
                    0 <= i < k ==> ((#[trigger] self.draw_lists@[i]).pass_id matches Some(pass)
                        ==> pass.0 < self.passes@.len()),
            decreases self.draw_lists@.len() - k,
        {
            if let Some(pass) = self.draw_lists[k].pass_id {
                if pass.0 >= self.passes.len() {
                    return false;
                }
            }
            k = k + 1;
        }
        let mut p: usize = 0;
        while p < self.passes.len()
            invariant
                p <= self.passes@.len(),
                forall|i: int|
                    0 <= i < self.draw_lists@.len() ==> ((
                    #[trigger] self.draw_lists@[i]).pass_id matches Some(pass) ==> pass.0
                        < self.passes@.len()),
                forall|i: int| 0 <= i < p ==> spec_rooted(self.passes@, i, self.passes@.len()),
            decreases self.passes@.len() - p,
        {
            if !self.is_rooted(PassId(p)) {
                return false;
            }
            p = p + 1;
        }
        true
    }

    /// Whether `other` holds what this context holds in every part but `part`.
    pub open spec fn spec_same_but(&self, other: &Cx, part: CxPart) -> bool {
        &&& self.dependencies == other.dependencies
        &&& self.redraw_id == other.redraw_id
        &&& self.platform_type == other.platform_type
        &&& self.cpu_cores == other.cpu_cores
        &&& self.gpu_info == other.gpu_info
        &&& self.draw_lists == other.draw_lists
        &&& part is Timers || self.timer_id == other.timer_id
        &&& part is NextFrames || self.next_frame_id == other.next_frame_id
        &&& part is PlatformOps || part is Timers || self.platform_ops == other.platform_ops
        &&& part is Passes || self.passes == other.passes
        &&& part is NewDrawEvent || self.new_draw_event == other.new_draw_event
        &&& part is Focus || (self.keyboard == other.keyboard && self.fingers == other.fingers
            && self.finger_drag == other.finger_drag)
        &&& part is NextFrames || self.new_next_frames == other.new_next_frames
        &&& part is Signals || self.signals == other.signals
        &&& part is Triggers || self.triggers == other.triggers
        &&& part is Globals || self.globals == other.globals
    }

    /// Index of the dependency with the path `path` among those from `from` on, or the number
    /// of dependencies if there is none.
    pub open spec fn spec_find_dependency(&self, path: Seq<char>, from: int) -> int
        decreases self.dependencies@.len() - from,
    {
        if 0 <= from < self.dependencies@.len() && self.dependencies@[from].path@ != path {
            self.spec_find_dependency(path, from + 1)
        } else {
            from
        }
    }

    /// The bytes of the dependency `path`. Fails with the load error if loading failed, and
    /// with a message that names the path if there is no such dependency or it has not been
    /// loaded yet.
    pub fn get_dependency(&self, path: &str) -> (r: Result<&Vec<u8>, String>)
        ensures
            ({
                let i = self.spec_find_dependency(path@, 0);
                if i < self.dependencies@.len() {
                    match self.dependencies@[i].data {
                        Some(Ok(data)) => r == Ok::<&Vec<u8>, String>(&data),
                        Some(Err(error)) => r is Err && r->Err_0@ == error@,
                        None => r is Err && r->Err_0@ == "Dependency not loaded "@ + path@,
                    }
                } else {
                    r is Err && r->Err_0@ == "Dependency not loaded "@ + path@
                }
            }),
    {
        let wanted = path.to_owned();
        let mut i: usize = 0;
        while i < self.dependencies.len()
            invariant
                i <= self.dependencies@.len(),
                wanted@ == path@,
                self.spec_find_dependency(path@, 0) == self.spec_find_dependency(path@, i as int),
            decreases self.dependencies@.len() - i,
        {
            if self.dependencies[i].path == wanted {
                return match &self.dependencies[i].data {
                    Some(Ok(data)) => Ok(data),
                    Some(Err(error)) => Err(error.clone()),
                    None => Err(dependency_not_loaded(path)),
                };
            }
            i = i + 1;
        }
        Err(dependency_not_loaded(path))
    }

    pub fn redraw_id(&self) -> (id: u64)
        ensures
            id == self.redraw_id,
    {
        self.redraw_id
    }

    pub fn platform_type(&self) -> (os: &OsType)
        ensures
            *os == self.platform_type,
    {
        &self.platform_type
    }

    pub fn cpu_cores(&self) -> (n: usize)
        ensures
            n == self.cpu_cores,
    {
        self.cpu_cores
    }

    pub fn gpu_info(&self) -> (info: &GpuInfo)
        ensures
            *info == self.gpu_info,
    {
        &self.gpu_info
    }

    /// Asks the operating system to show `menu`.
    pub fn update_menu(&mut self, menu: Menu)
        ensures
            final(self).platform_ops@ == old(self).platform_ops@.push(CxOsOp::UpdateMenu(menu)),
            old(self).spec_same_but(final(self), CxPart::PlatformOps),
    {
        self.platform_ops.push(CxOsOp::UpdateMenu(menu));
    }

    /// Makes the request `op` unless the same request is pending already.
    pub fn push_unique_platform_op(&mut self, op: CxOsOp)
        ensures
            final(self).platform_ops@ == spec_push_unique(old(self).platform_ops@, op),
            old(self).spec_same_but(final(self), CxPart::PlatformOps),
    {
        let mut i: usize = 0;
        while i < self.platform_ops.len()
            invariant
                i <= self.platform_ops@.len(),
                *self == *old(self),
                forall|k: int| 0 <= k < i ==> self.platform_ops@[k] != op,
            decreases self.platform_ops@.len() - i,
        {
            if self.platform_ops[i] == op {
                assert(self.platform_ops@.contains(op));
                return ;
            }
            i = i + 1;
        }
        self.platform_ops.push(op);
    }

    /// Asks the operating system to show the text input method at `pos`.
    pub fn show_text_ime(&mut self, pos: Vec2)
        ensures
            final(self).platform_ops@ == old(self).platform_ops@.push(CxOsOp::ShowTextIME(pos)),
            old(self).spec_same_but(final(self), CxPart::PlatformOps),
    {
        self.platform_ops.push(CxOsOp::ShowTextIME(pos));
    }

    /// Asks the operating system to hide the text input method.
    pub fn hide_text_ime(&mut self)
        ensures
            final(self).platform_ops@ == old(self).platform_ops@.push(CxOsOp::HideTextIME),
            old(self).spec_same_but(final(self), CxPart::PlatformOps),
    {
        self.platform_ops.push(CxOsOp::HideTextIME);
    }

    /// Whether a request to start dragging is pending.
    pub fn is_dragging(&self) -> (r: bool)
        ensures
            r == spec_is_dragging(self.platform_ops@),
    {
        let mut i: usize = 0;
        while i < self.platform_ops.len()
            invariant
                i <= self.platform_ops@.len(),
                forall|k: int| 0 <= k < i ==> !((#[trigger] self.platform_ops@[k]) is StartDragging),
            decreases self.platform_ops@.len() - i,
        {
            if let CxOsOp::StartDragging(_) = self.platform_ops[i] {
                return true;
            }
            i = i + 1;
        }
        false
    }

    /// Asks the operating system to start dragging `dragged_item`. Only one drag can be
    /// started per event cycle.
    pub fn start_dragging(&mut self, dragged_item: DraggedItem)
        requires
            !spec_is_dragging(old(self).platform_ops@),
        ensures
            final(self).platform_ops@ == old(self).platform_ops@.push(
                CxOsOp::StartDragging(dragged_item),
            ),
            old(self).spec_same_but(final(self), CxPart::PlatformOps),
    {
        self.platform_ops.push(CxOsOp::StartDragging(dragged_item));
    }

    /// Asks the operating system to show `cursor`. A pending request to set the cursor is
    /// replaced where it stands, so that at most one is ever pending.
    pub fn set_cursor(&mut self, cursor: MouseCursor)
        ensures
            ({
                let ops = old(self).platform_ops@;
                let i = spec_first_set_cursor(ops, 0);
                final(self).platform_ops@ == (if i < ops.len() {
                    ops.update(i, CxOsOp::SetCursor(cursor))
                } else {
                    ops.push(CxOsOp::SetCursor(cursor))
                })
            }),
            old(self).spec_same_but(final(self), CxPart::PlatformOps),
    {
        let mut i: usize = 0;
        while i < self.platform_ops.len()
            invariant
                i <= self.platform_ops@.len(),
                *self == *old(self),
                spec_first_set_cursor(self.platform_ops@, 0) == spec_first_set_cursor(
                    self.platform_ops@,
                    i as int,
                ),
            decreases self.platform_ops@.len() - i,
        {
            if let CxOsOp::SetCursor(_) = self.platform_ops[i] {
                self.platform_ops.set(i, CxOsOp::SetCursor(cursor));
                return ;
            }
            i = i + 1;
        }
        self.platform_ops.push(CxOsOp::SetCursor(cursor));
    }

    /// Starts a timer that fires after `interval` microseconds, once or again and again.
    pub fn start_timer(&mut self, interval: u64, repeats: bool) -> (timer: Timer)
        requires
            old(self).timer_id < u64::MAX,
        ensures
            timer.0 == old(self).timer_id + 1,
            final(self).timer_id == timer.0,
            final(self).platform_ops@ == old(self).platform_ops@.push(
                CxOsOp::StartTimer { timer_id: timer.0, interval, repeats },
            ),
            old(self).spec_same_but(final(self), CxPart::Timers),
    {
        self.timer_id = self.timer_id + 1;
        self.platform_ops.push(
            CxOsOp::StartTimer { timer_id: self.timer_id, interval, repeats },
        );
        Timer(self.timer_id)
    }

    /// Stops `timer`, unless it is no timer.
    pub fn stop_timer(&mut self, timer: Timer)
        ensures
            final(self).platform_ops@ == (if timer.0 != 0 {
                old(self).platform_ops@.push(CxOsOp::StopTimer(timer.0))
            } else {
                old(self).platform_ops@
            }),
            old(self).spec_same_but(final(self), CxPart::PlatformOps),
    {
        if timer.0 != 0 {
            self.platform_ops.push(CxOsOp::StopTimer(timer.0));
        }
    }

    /// Redraws everything at the next draw event.
    pub fn redraw_all(&mut self)
        ensures
            final(self).new_draw_event.redraw_all,
            final(self).new_draw_event.draw_lists == old(self).new_draw_event.draw_lists,
            final(self).new_draw_event.draw_lists_and_children == old(
                self,
            ).new_draw_event.draw_lists_and_children,
            old(self).spec_same_but(final(self), CxPart::NewDrawEvent),
    {
        self.new_draw_event.redraw_all = true;
    }

    /// Redraws the draw list of `area` at the next draw event.
    pub fn redraw_area(&mut self, area: Area)
        ensures
            final(self).new_draw_event.draw_lists@ == (match area.spec_draw_list_id() {
                Some(id) => spec_push_unique(old(self).new_draw_event.draw_lists@, id),
                None => old(self).new_draw_event.draw_lists@,
            }),
            final(self).new_draw_event.redraw_all == old(self).new_draw_event.redraw_all,
            final(self).new_draw_event.draw_lists_and_children == old(
                self,
            ).new_draw_event.draw_lists_and_children,
            old(self).spec_same_but(final(self), CxPart::NewDrawEvent),
    {
        if let Some(draw_list_id) = area.draw_list_id() {
            push_unique_draw_list(&mut self.new_draw_event.draw_lists, draw_list_id);
        }
    }

    /// Redraws the draw list of `area` and everything below it at the next draw event.
    pub fn redraw_area_and_children(&mut self, area: Area)
        ensures
            final(self).new_draw_event.draw_lists_and_children@ == (
            match area.spec_draw_list_id() {
                Some(id) => spec_push_unique(
                    old(self).new_draw_event.draw_lists_and_children@,
                    id,
                ),
                None => old(self).new_draw_event.draw_lists_and_children@,
            }),
            final(self).new_draw_event.redraw_all == old(self).new_draw_event.redraw_all,
            final(self).new_draw_event.draw_lists == old(self).new_draw_event.draw_lists,
            old(self).spec_same_but(final(self), CxPart::NewDrawEvent),
    {
        if let Some(draw_list_id) = area.draw_list_id() {
            push_unique_draw_list(&mut self.new_draw_event.draw_lists_and_children, draw_list_id);
        }
    }

    /// The window that the pass `pass_id` is drawn in, directly or through the passes above
    /// it, as far as 25 steps up reach; `None` if there is no such window.
    pub open spec fn spec_pass_window(&self, pass_id: int, steps: nat) -> Option<WindowId>
        decreases steps,
    {
        if steps == 0 || !(0 <= pass_id < self.passes@.len()) {
            None
        } else {
            match self.passes@[pass_id].parent {
                CxPassParent::Window(window_id) => Some(window_id),
                CxPassParent::Pass(parent) => self.spec_pass_window(
                    parent.0 as int,
                    (steps - 1) as nat,
                ),
                CxPassParent::Detached => None,
            }
        }
    }

    /// The window whose resolution the pass `pass_id` is drawn at: the window of the pass
    /// itself or of the nearest pass above it, at most 25 steps up.
    pub fn pass_window(&self, pass_id: PassId) -> (window: Option<WindowId>)
        ensures
            window == self.spec_pass_window(pass_id.0 as int, 25),
    {
        let mut walk = pass_id;
        let mut steps: u8 = 25;
        while steps > 0
            invariant
                self.spec_pass_window(pass_id.0 as int, 25) == self.spec_pass_window(
                    walk.0 as int,
                    steps as nat,
                ),
            decreases steps,
        {
            if walk.0 >= self.passes.len() {
                return None;
            }
            match self.passes[walk.0].parent {
                CxPassParent::Window(window_id) => {
                    return Some(window_id);
                },
                CxPassParent::Pass(parent) => {
                    walk = parent;
                },
                CxPassParent::Detached => {
                    return None;
                },
            }
            steps = steps - 1;
        }
        None
    }

    /// Marks the pass `pass_id` as to be painted again.
    pub fn repaint_pass(&mut self, pass_id: PassId)
        requires
            pass_id.0 < old(self).passes@.len(),
        ensures
            final(self).passes@ == old(self).passes@.update(
                pass_id.0 as int,
                CxPass { paint_dirty: true, ..old(self).passes@[pass_id.0 as int] },
            ),
            old(self).spec_same_but(final(self), CxPart::Passes),
    {
        let pass = self.passes[pass_id.0];
        self.passes.set(
            pass_id.0,
            CxPass {
                parent: pass.parent,
                main_draw_list_id: pass.main_draw_list_id,
                paint_dirty: true,
            },
        );
    }

    /// Redraws, with everything below them, the main draw lists of the pass `pass_id` and of
    /// every pass above it.
    pub fn redraw_pass_and_parent_passes(&mut self, pass_id: PassId)
        requires
            old(self).wf(),
            pass_id.0 < old(self).passes@.len(),
        ensures
            final(self).new_draw_event.draw_lists_and_children@ == spec_redraw_parents(
                old(self).passes@,
                pass_id.0 as int,
                old(self).passes@.len(),
                old(self).new_draw_event.draw_lists_and_children@,
            ),
            final(self).new_draw_event.redraw_all == old(self).new_draw_event.redraw_all,
            final(self).new_draw_event.draw_lists == old(self).new_draw_event.draw_lists,
            old(self).spec_same_but(final(self), CxPart::NewDrawEvent),
    {
        let mut walk_pass_id = pass_id;
        let ghost mut fuel: nat = self.passes@.len();
        loop
            invariant_except_break
                spec_rooted(self.passes@, walk_pass_id.0 as int, fuel),
                spec_redraw_parents(
                    old(self).passes@,
                    pass_id.0 as int,
                    old(self).passes@.len(),
                    old(self).new_draw_event.draw_lists_and_children@,
                ) == spec_redraw_parents(
                    self.passes@,
                    walk_pass_id.0 as int,
                    fuel,
                    self.new_draw_event.draw_lists_and_children@,
                ),
            invariant
                old(self).spec_same_but(self, CxPart::NewDrawEvent),
                self.new_draw_event.redraw_all == old(self).new_draw_event.redraw_all,
                self.new_draw_event.draw_lists == old(self).new_draw_event.draw_lists,
            ensures
                self.new_draw_event.draw_lists_and_children@ == spec_redraw_parents(
                    old(self).passes@,
                    pass_id.0 as int,
                    old(self).passes@.len(),
                    old(self).new_draw_event.draw_lists_and_children@,
                ),
                self.new_draw_event.redraw_all == old(self).new_draw_event.redraw_all,
                self.new_draw_event.draw_lists == old(self).new_draw_event.draw_lists,
                old(self).spec_same_but(self, CxPart::NewDrawEvent),
            decreases fuel,
        {
            let pass = self.passes[walk_pass_id.0];
            if let Some(main_view_id) = pass.main_draw_list_id {
                self.redraw_area_and_children(
                    Area::DrawList(DrawListArea { redraw_id: 0, draw_list_id: main_view_id }),
                );
            }
            match pass.parent {
                CxPassParent::Pass(next_pass_id) => {
                    walk_pass_id = next_pass_id;
                    proof {
                        fuel = (fuel - 1) as nat;
                    }
                },
                _ => {
                    break ;
                },
            }
        }
    }

    /// Redraws, with everything below them, the main draw lists of the pass `pass_id` and of
    /// every pass below it.
    pub fn redraw_pass_and_child_passes(&mut self, pass_id: PassId)
        requires
            old(self).wf(),
            pass_id.0 < old(self).passes@.len(),
        ensures
            final(self).new_draw_event.draw_lists_and_children@ == spec_redraw_tree(
                old(self).passes@,
                pass_id.0 as int,
                old(self).new_draw_event.draw_lists_and_children@,
            ),
            final(self).new_draw_event.redraw_all == old(self).new_draw_event.redraw_all,
            final(self).new_draw_event.draw_lists == old(self).new_draw_event.draw_lists,
            old(self).spec_same_but(final(self), CxPart::NewDrawEvent),
        decreases old(self).passes@.len() - spec_level(old(self).passes@, pass_id.0 as int),
    {
        let ghost passes = self.passes@;
        let ghost wanted = spec_redraw_tree(
            passes,
            pass_id.0 as int,
            self.new_draw_event.draw_lists_and_children@,
        );
        let pass = self.passes[pass_id.0];
        if let Some(main_list) = pass.main_draw_list_id {
            self.redraw_area_and_children(
                Area::DrawList(DrawListArea { redraw_id: 0, draw_list_id: main_list }),
            );
        }
        let mut sub: usize = 0;
        while sub < self.passes.len()
            invariant
                self.wf(),
                passes == self.passes@,
                passes == old(self).passes@,
                pass_id.0 < passes.len(),
                sub <= passes.len(),
                old(self).spec_same_but(self, CxPart::NewDrawEvent),
                self.new_draw_event.redraw_all == old(self).new_draw_event.redraw_all,
                self.new_draw_event.draw_lists == old(self).new_draw_event.draw_lists,
                wanted == spec_redraw_children(
                    passes,
                    pass_id.0 as int,
                    sub as int,
                    self.new_draw_event.draw_lists_and_children@,
                ),
            decreases passes.len() - sub,
        {
            if let CxPassParent::Pass(dep_pass_id) = self.passes[sub].parent {
                if dep_pass_id == pass_id {
                    proof {
                        lemma_child_level(passes, pass_id.0 as int, sub as int);
                    }
                    self.redraw_pass_and_child_passes(PassId(sub));
                }
            }
            sub = sub + 1;
        }
    }

    /// Redraws the passes that `area` is drawn in: the pass of its draw list and every pass
    /// above it.
    pub fn redraw_pass_of(&mut self, area: Area)
        requires
            old(self).wf(),
            area.spec_draw_list_id() matches Some(id) ==> id.0 < old(self).draw_lists@.len()
                && old(self).draw_lists@[id.0 as int].pass_id is Some,
        ensures
            final(self).new_draw_event.draw_lists_and_children@ == (
            match area.spec_draw_list_id() {
                Some(id) => spec_redraw_parents(
                    old(self).passes@,
                    spec_pass_of(old(self).draw_lists@, id),
                    old(self).passes@.len(),
                    old(self).new_draw_event.draw_lists_and_children@,
                ),
                None => old(self).new_draw_event.draw_lists_and_children@,
            }),
            final(self).new_draw_event.redraw_all == old(self).new_draw_event.redraw_all,
            final(self).new_draw_event.draw_lists == old(self).new_draw_event.draw_lists,
            old(self).spec_same_but(final(self), CxPart::NewDrawEvent),
    {
        if let Some(draw_list_id) = area.draw_list_id() {
            match self.draw_lists[draw_list_id.0].pass_id {
                Some(pass_id) => {
                    self.redraw_pass_and_parent_passes(pass_id);
                },
                None => {},
            }
        }
    }

    /// Tells the context that the widget that occupied `old_area` now occupies `new_area`,
    /// so that fingers, drags and the key focus follow it. Returns `new_area`.
    pub fn update_area_refs(&mut self, old_area: Area, new_area: Area) -> (area: Area)
        ensures
            area == new_area,
            old(self).spec_same_but(final(self), CxPart::Focus),
            old_area == Area::Empty ==> *final(self) == *old(self),
            old_area != Area::Empty ==> {
                &&& old(self).fingers.spec_updated(&final(self).fingers, old_area, new_area)
                &&& final(self).keyboard == old(self).keyboard.spec_update_area(
                    old_area,
                    new_area,
                )
                &&& final(self).finger_drag == (CxDragDrop {
                    drag_area: old(self).finger_drag.drag_area.spec_replaced(old_area, new_area),
                    ..old(self).finger_drag
                })
            },
    {
        if old_area == Area::Empty {
            return new_area;
        }
        self.fingers.update_area(old_area, new_area);
        self.finger_drag.update_area(old_area, new_area);
        self.keyboard.update_area(old_area, new_area);
        new_area
    }

    /// Asks for the key focus to go to `focus_area` at the next focus change.
    pub fn set_key_focus(&mut self, focus_area: Area)
        ensures
            final(self).keyboard == (CxKeyboard {
                next_key_focus: focus_area,
                text_ime_dismissed: false,
                ..old(self).keyboard
            }),
            final(self).fingers == old(self).fingers,
            final(self).finger_drag == old(self).finger_drag,
            old(self).spec_same_but(final(self), CxPart::Focus),
    {
        self.keyboard.set_key_focus(focus_area);
    }

    /// Asks for the key focus to go back to the area that had it before.
    pub fn revert_key_focus(&mut self)
        ensures
            final(self).keyboard == (CxKeyboard {
                next_key_focus: old(self).keyboard.prev_key_focus,
                ..old(self).keyboard
            }),
            final(self).fingers == old(self).fingers,
            final(self).finger_drag == old(self).finger_drag,
            old(self).spec_same_but(final(self), CxPart::Focus),
    {
        self.keyboard.revert_key_focus();
    }

    /// Whether `focus_area` has the key focus.
    pub fn has_key_focus(&self, focus_area: Area) -> (r: bool)
        ensures
            r == (self.keyboard.key_focus == focus_area),
    {
        self.keyboard.has_key_focus(focus_area)
    }

    /// Asks to be called back at the next frame, and returns the handle by which the
    /// callback will be known.
    pub fn new_next_frame(&mut self) -> (frame: NextFrame)
        requires
            old(self).next_frame_id < u64::MAX,
        ensures
            frame == NextFrame(old(self).next_frame_id),
            final(self).next_frame_id == old(self).next_frame_id + 1,
            final(self).new_next_frames@ == spec_push_unique(old(self).new_next_frames@, frame),
            old(self).spec_same_but(final(self), CxPart::NextFrames),
    {
        let res = NextFrame(self.next_frame_id);
        self.next_frame_id = self.next_frame_id + 1;
        push_unique_next_frame(&mut self.new_next_frames, res);
        res
    }

    /// Sends `signal`.
    pub fn send_signal(&mut self, signal: Signal)
        ensures
            final(self).signals@ == spec_push_unique(old(self).signals@, signal),
            old(self).spec_same_but(final(self), CxPart::Signals),
    {
        push_unique_signal(&mut self.signals, signal);
    }

    /// Sends `trigger` to `area`.
    pub fn send_trigger(&mut self, area: Area, trigger: Trigger)
        ensures
            ({
                let before = old(self).triggers@;
                let after = final(self).triggers@;
                let i = spec_find_area(before, area, 0);
                if i < before.len() {
                    &&& after.len() == before.len()
                    &&& after[i].area == area
                    &&& after[i].triggers@ == spec_push_unique(before[i].triggers@, trigger)
                    &&& forall|k: int| 0 <= k < before.len() && k != i ==> after[k] == before[k]
                } else {
                    &&& after.len() == before.len() + 1
                    &&& after[i].area == area
                    &&& after[i].triggers@ == seq![trigger]
                    &&& forall|k: int| 0 <= k < before.len() ==> after[k] == before[k]
                }
            }),
            old(self).spec_same_but(final(self), CxPart::Triggers),
    {
        let mut i: usize = 0;
        while i < self.triggers.len()
            invariant
                i <= self.triggers@.len(),
                *self == *old(self),
                spec_find_area(self.triggers@, area, 0) == spec_find_area(
                    self.triggers@,
                    area,
                    i as int,
                ),
            decreases self.triggers@.len() - i,
        {
            if self.triggers[i].area == area {
                let triggers = with_trigger(&self.triggers[i].triggers, trigger);
                self.triggers.set(i, AreaTriggers { area, triggers });
                return ;
            }
            i = i + 1;
        }
        let mut new_set: Vec<Trigger> = Vec::new();
        new_set.push(trigger);
        self.triggers.push(AreaTriggers { area, triggers: new_set });
    }

    /// Index of the global of type `id` among those from `from` on, or the number of globals
    /// if there is none.
    pub open spec fn spec_find_global(&self, id: GlobalId, from: int) -> int
        decreases self.globals@.len() - from,
    {
        if 0 <= from < self.globals@.len() && self.globals@[from] != id {
            self.spec_find_global(id, from + 1)
        } else {
            from
        }
    }

    /// Index of the global of type `id`, or the number of globals if there is none.
    pub fn find_global(&self, id: GlobalId) -> (index: usize)
        ensures
            index == self.spec_find_global(id, 0),
            index <= self.globals@.len(),
            index < self.globals@.len() ==> self.globals@[index as int] == id,
    {
        let mut i: usize = 0;
        while i < self.globals.len()
            invariant
                i <= self.globals@.len(),
                self.spec_find_global(id, 0) == self.spec_find_global(id, i as int),
            decreases self.globals@.len() - i,
        {
            if self.globals[i] == id {
                return i;
            }
            i = i + 1;
        }
        i
    }

    /// Registers a global value of type `id` unless there is one already. Returns the index
    /// at which the host has to keep the value, or `None` if the value is not kept.
    pub fn set_global(&mut self, id: GlobalId) -> (slot: Option<usize>)
        ensures
            old(self).spec_same_but(final(self), CxPart::Globals),
            slot == (if old(self).spec_find_global(id, 0) < old(self).globals@.len() {
                None
            } else {
                Some(old(self).globals@.len() as usize)
            }),
            final(self).globals@ == (if slot is Some {
                old(self).globals@.push(id)
            } else {
                old(self).globals@
            }),
    {
        let index = self.find_global(id);
        if index < self.globals.len() {
            None
        } else {
            self.globals.push(id);
            Some(index)
        }
    }

    /// The index at which the host keeps the global value of type `id`.
    pub fn get_global(&self, id: GlobalId) -> (slot: usize)
        requires
            self.spec_find_global(id, 0) < self.globals@.len(),
        ensures
            slot == self.spec_find_global(id, 0),
            self.globals@[slot as int] == id,
    {
        self.find_global(id)
    }

    /// Whether there is a global value of type `id`.
    pub fn has_global(&self, id: GlobalId) -> (r: bool)
        ensures
            r == (self.spec_find_global(id, 0) < self.globals@.len()),
    {
        self.find_global(id) < self.globals.len()
    }
}

} // verus!
