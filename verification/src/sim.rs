//! The simulation: a two-state machine that lets the board be edited, runs
//! it generation by generation on the tick timer, and goes back to editing
//! on reset or when nothing is left alive.

use crate::control::{activates, Control, ControlState};
use crate::grid::{Grid, GridView, Point};
use crate::interaction::{apply_pointer, lemma_point_preserves_wf, pointer_view};
use crate::rules::{advance, generations, lemma_step_preserves_wf, next_generation};
use crate::store::{CellStore, StoreView};
use crate::timer::{total, TickTimer, TimerView};
use crate::visual::{render, Sprite};
use vstd::prelude::*;

verus! {

/// The two states of the simulation.
#[derive(Debug, Clone, Copy, PartialEq, Eq, Structural, Hash)]
pub enum SimState {
    /// The board is being painted; the clock stands still.
    Editing,
    /// The board evolves on every tick; painting is off.
    Running,
}

impl Default for SimState {
    fn default() -> (state: Self)
        ensures
            state == SimState::Editing,
    {
        SimState::Editing
    }
}

/// The text on the control: what activating it would do.
pub open spec fn label_of(state: SimState) -> Seq<char> {
    match state {
        SimState::Editing => "Start"@,
        SimState::Running => "Reset"@,
    }
}

/// The text on the control: "Start" while editing, "Reset" while running.
pub fn label(state: SimState) -> (text: &'static str)
    ensures
        text@ == label_of(state),
{
    match state {
        SimState::Editing => "Start",
        SimState::Running => "Reset",
    }
}

/// What the host hands over for one frame.
#[derive(Debug, Clone, Copy)]
pub struct FrameInput {
    /// Where the pointer is in screen space, if it is over the window.
    pub pointer: Option<Point>,
    /// Whether the primary button went down during this frame.
    pub click_edge: bool,
    /// What the pointer is doing to the control.
    pub control: ControlState,
    /// Time since the previous frame, in nanoseconds.
    pub delta_nanos: u64,
}

/// The mathematical value of a [`FrameInput`].
pub struct FrameInputView {
    pub pointer: Option<(int, int)>,
    pub click_edge: bool,
    pub control: ControlState,
    pub delta: nat,
}

impl View for FrameInput {
    type V = FrameInputView;

    open spec fn view(&self) -> FrameInputView {
        FrameInputView {
            pointer: pointer_view(self.pointer),
            click_edge: self.click_edge,
            control: self.control,
            delta: self.delta_nanos as nat,
        }
    }
}

/// What the host is to draw after a frame.
#[derive(Debug)]
pub struct FrameOutput {
    /// One sprite per cell, in slot order.
    pub sprites: Vec<Sprite>,
    /// The text on the control.
    pub label: &'static str,
    /// How the control's background is drawn.
    pub control: ControlState,
}

/// The mathematical simulation.
pub struct SimView {
    pub state: SimState,
    pub store: StoreView,
    pub timer: TimerView,
    pub control: ControlState,
}

impl SimView {
    /// The board and the clock are well formed.
    pub open spec fn wf(self) -> bool {
        self.store.wf() && self.timer.wf()
    }

    /// The simulation at startup: editing an empty board.
    pub open spec fn initial(grid: GridView, viewport_height: nat, period: nat) -> SimView {
        SimView {
            state: SimState::Editing,
            store: StoreView::fresh(grid, viewport_height),
            timer: TimerView { period, elapsed: 0 },
            control: ControlState::Idle,
        }
    }

    /// Entry into `Editing`: every cell is cleared and the clock is rewound.
    pub open spec fn reset(self) -> SimView {
        SimView {
            state: SimState::Editing,
            store: self.store.reset_all(),
            timer: self.timer.reset(),
            ..self
        }
    }

    /// From `Editing` to `Running`. No cell changes; the clock starts from
    /// zero. Nothing happens to a simulation that is running already.
    pub open spec fn start(self) -> SimView {
        match self.state {
            SimState::Editing => SimView {
                state: SimState::Running,
                timer: self.timer.reset(),
                ..self
            },
            SimState::Running => self,
        }
    }

    /// What activating the control does: start while editing, reset while
    /// running.
    pub open spec fn activate(self) -> SimView {
        match self.state {
            SimState::Editing => self.start(),
            SimState::Running => self.reset(),
        }
    }

    /// One frame of pointer input. It reaches the board only while editing.
    pub open spec fn point(self, pointer: Option<(int, int)>, click_edge: bool) -> SimView {
        match self.state {
            SimState::Editing => SimView { store: self.store.point(pointer, click_edge), ..self },
            SimState::Running => self,
        }
    }

    /// Whether a frame of `delta` computes a generation.
    pub open spec fn generates(self, delta: nat) -> bool {
        self.state is Running && self.timer.fires(delta)
    }

    /// One frame of the clock. While running, the timer advances; when it
    /// fires, the board moves on by one generation, and if nothing is left
    /// alive the simulation goes back to editing. While editing, the clock
    /// stands still.
    pub open spec fn tick(self, delta: nat) -> SimView {
        if self.state is Editing {
            self
        } else if !self.timer.fires(delta) {
            SimView { timer: self.timer.tick(delta), ..self }
        } else {
            let stepped = SimView {
                timer: self.timer.tick(delta),
                store: self.store.step(),
                ..self
            };
            if stepped.store.alive == Set::<(int, int)>::empty() {
                stepped.reset()
            } else {
                stepped
            }
        }
    }

    /// The simulation after the frames `deltas`, first to last, on which
    /// nothing comes in but time.
    pub open spec fn run(self, deltas: Seq<nat>) -> SimView
        decreases deltas.len(),
    {
        if deltas.len() == 0 {
            self
        } else {
            self.run(deltas.drop_last()).tick(deltas.last())
        }
    }

    /// How many generations the frames `deltas` compute.
    pub open spec fn generated(self, deltas: Seq<nat>) -> nat
        decreases deltas.len(),
    {
        if deltas.len() == 0 {
            0
        } else {
            let before = self.run(deltas.drop_last());
            self.generated(deltas.drop_last()) + if before.generates(deltas.last()) {
                1nat
            } else {
                0nat
            }
        }
    }

    /// One whole frame: pointer input, then the clock, then the control. A
    /// press of the control acts on the state the frame began in, the one
    /// its label showed.
    pub open spec fn frame(self, input: FrameInputView) -> SimView {
        let after_clock = self.point(input.pointer, input.click_edge).tick(input.delta);
        let after_control = if activates(self.control, input.control) {
            match self.state {
                SimState::Editing => after_clock.start(),
                SimState::Running => after_clock.reset(),
            }
        } else {
            after_clock
        };
        SimView { control: input.control, ..after_control }
    }
}

/// Starting keeps what was painted: from `Editing`, activating the control
/// leads to `Running` with every cell as it was, and the first generation
/// comes one full period later.
pub proof fn lemma_start_keeps_cells(sim: SimView, delta: nat)
    requires
        sim.state is Editing,
    ensures
        sim.activate() == sim.start(),
        sim.start().state is Running,
        sim.start().store == sim.store,
        sim.start().generates(delta) <==> delta >= sim.timer.period,
{
}

/// Extinction stops the simulation: when the generation computed on a tick
/// leaves nothing alive, the simulation is back in `Editing` with every
/// cell cleared and the clock rewound.
pub proof fn lemma_extinction_stops(sim: SimView, delta: nat)
    requires
        sim.generates(delta),
        next_generation(sim.store.grid, sim.store.alive) == Set::<(int, int)>::empty(),
    ensures
        sim.tick(delta).state is Editing,
        sim.tick(delta).store == sim.store.reset_all(),
        sim.tick(delta).timer.elapsed == 0,
{
}

/// A generation that leaves something alive keeps the simulation running:
/// the live cells are exactly those of the next generation, judged against
/// the live cells before the tick, and nothing else changes on the board.
pub proof fn lemma_generation_keeps_running(sim: SimView, delta: nat)
    requires
        sim.generates(delta),
        next_generation(sim.store.grid, sim.store.alive) != Set::<(int, int)>::empty(),
    ensures
        sim.tick(delta).state is Running,
        sim.tick(delta).store.alive == next_generation(sim.store.grid, sim.store.alive),
        sim.tick(delta).store == sim.store.step(),
        sim.tick(delta).timer == sim.timer.tick(delta),
{
}

/// Between firings only the clock moves.
pub proof fn lemma_quiet_tick(sim: SimView, delta: nat)
    requires
        !sim.generates(delta),
    ensures
        sim.tick(delta).state == sim.state,
        sim.tick(delta).store == sim.store,
        sim.state is Editing ==> sim.tick(delta) == sim,
{
}

/// Reset clears the board: from `Running`, activating the control leads to
/// `Editing` with every cell dead and unhovered; resetting again changes
/// nothing more.
pub proof fn lemma_reset_clears(sim: SimView)
    ensures
        sim.state is Running ==> sim.activate() == sim.reset(),
        sim.reset().state is Editing,
        sim.reset().store.alive == Set::<(int, int)>::empty(),
        sim.reset().store.hovered == Set::<(int, int)>::empty(),
        sim.reset().timer.elapsed == 0,
        sim.reset().reset() == sim.reset(),
{
}

/// A press of the control seen from the host: the frame on which the
/// button goes down while editing ends in `Running`, with the board as this
/// frame's pointer input left it; the frame on which it goes down while
/// running ends in `Editing`, with the board cleared. A frame without a new
/// press leaves the state to the clock.
pub proof fn lemma_frame_control(sim: SimView, input: FrameInputView)
    ensures
        sim.state is Editing && activates(sim.control, input.control) ==> {
            &&& sim.frame(input).state is Running
            &&& sim.frame(input).store == sim.store.point(input.pointer, input.click_edge)
            &&& sim.frame(input).timer.elapsed == 0
        },
        sim.state is Running && activates(sim.control, input.control) ==> {
            &&& sim.frame(input).state is Editing
            &&& sim.frame(input).store == sim.store.reset_all()
            &&& sim.frame(input).timer.elapsed == 0
        },
        !activates(sim.control, input.control) ==> {
            &&& sim.frame(input).state == sim.point(input.pointer, input.click_edge).tick(
                input.delta,
            ).state
            &&& sim.frame(input).store == sim.point(input.pointer, input.click_edge).tick(
                input.delta,
            ).store
        },
{
}

/// A run follows its clock: as long as the simulation has not stopped, it
/// has computed one generation for every firing of its timer, and the board
/// is that many generations on from where it began.
pub proof fn lemma_run_follows_the_clock(sim: SimView, deltas: Seq<nat>)
    requires
        sim.run(deltas).state is Running,
    ensures
        sim.state is Running,
        sim.run(deltas).timer == sim.timer.run(deltas),
        sim.generated(deltas) == sim.timer.fired(deltas),
        sim.run(deltas).store.grid == sim.store.grid,
        sim.run(deltas).store.hovered == sim.store.hovered,
        sim.run(deltas).store.alive == generations(
            sim.store.grid,
            sim.store.alive,
            sim.generated(deltas),
        ),
    decreases deltas.len(),
{
    if deltas.len() > 0 {
        lemma_run_follows_the_clock(sim, deltas.drop_last());
    }
}

/// One generation per period of real time: while the simulation keeps
/// running and no frame takes longer than the period, the board is as many
/// generations on as whole periods have gone by since the timer last stood
/// at zero, and the time left over is carried towards the next one.
pub proof fn lemma_one_generation_per_period(sim: SimView, deltas: Seq<nat>)
    requires
        sim.wf(),
        sim.timer.period > 0,
        sim.run(deltas).state is Running,
        forall|i: int| 0 <= i < deltas.len() ==> deltas[i] <= sim.timer.period,
    ensures
        sim.generated(deltas) == (sim.timer.elapsed + total(deltas)) / sim.timer.period,
        sim.run(deltas).timer.elapsed == (sim.timer.elapsed + total(deltas)) % sim.timer.period,
        sim.run(deltas).store.alive == generations(
            sim.store.grid,
            sim.store.alive,
            (sim.timer.elapsed + total(deltas)) / sim.timer.period,
        ),
{
    lemma_run_follows_the_clock(sim, deltas);
    sim.timer.lemma_one_firing_per_period(deltas);
    sim.timer.lemma_remainder_carries(deltas);
}

/// While running, the pointer cannot touch the board.
pub proof fn lemma_running_ignores_pointer(
    sim: SimView,
    pointer: Option<(int, int)>,
    click_edge: bool,
)
    requires
        sim.state is Running,
    ensures
        sim.point(pointer, click_edge) == sim,
{
}

/// Whatever the input, a frame leaves a well-formed simulation well formed,
/// on the same grid and with the same period.
pub proof fn lemma_frame_preserves_wf(sim: SimView, input: FrameInputView)
    requires
        sim.wf(),
    ensures
        sim.frame(input).wf(),
        sim.frame(input).store.grid == sim.store.grid,
        sim.frame(input).store.viewport_height == sim.store.viewport_height,
        sim.frame(input).timer.period == sim.timer.period,
        sim.frame(input).control == input.control,
{
    lemma_point_preserves_wf(sim.store, input.pointer, input.click_edge);
    let pointed = sim.point(input.pointer, input.click_edge);
    pointed.timer.lemma_tick_preserves_wf(input.delta);
    lemma_step_preserves_wf(pointed.store);
}

/// The simulation: the one owner of the state, the board, the clock and the
/// control.
#[derive(Debug)]
pub struct Simulation {
    state: SimState,
    store: CellStore,
    timer: TickTimer,
    control: Control,
}

impl View for Simulation {
    type V = SimView;

    closed spec fn view(&self) -> SimView {
        SimView {
            state: self.state,
            store: self.store@,
            timer: self.timer@,
            control: self.control@,
        }
    }
}

impl Simulation {
    /// A simulation at startup: editing an empty board laid out on `grid`.
    pub fn new(grid: Grid, viewport_height: u32, period_nanos: u64) -> (sim: Self)
        ensures
            sim@ == SimView::initial(grid@, viewport_height as nat, period_nanos as nat),
            sim@.wf(),
    {
        let sim = Simulation {
            state: SimState::Editing,
            store: CellStore::new(grid, viewport_height),
            timer: TickTimer::new(period_nanos),
            control: Control::new(),
        };
        proof {
            use_type_invariant(&sim.store);
            use_type_invariant(&sim.timer);
        }
        sim
    }

    pub fn state(&self) -> (state: SimState)
        ensures
            state == self@.state,
    {
        self.state
    }

    pub fn store(&self) -> (store: &CellStore)
        ensures
            store@ == self@.store,
    {
        &self.store
    }

    pub fn timer(&self) -> (timer: &TickTimer)
        ensures
            timer@ == self@.timer,
    {
        &self.timer
    }

    pub fn control(&self) -> (control: &Control)
        ensures
            control@ == self@.control,
    {
        &self.control
    }

    /// Goes back to editing: clears every cell and rewinds the clock.
    pub fn reset(&mut self)
        ensures
            final(self)@ == old(self)@.reset(),
            final(self)@.wf(),
    {
        self.store.reset_all();
        self.timer.reset();
        self.state = SimState::Editing;
        proof {
            use_type_invariant(&self.store);
            use_type_invariant(&self.timer);
        }
    }

    /// Starts running what has been painted.
    pub fn start(&mut self)
        ensures
            final(self)@ == old(self)@.start(),
            final(self)@.wf(),
    {
        proof {
            use_type_invariant(&self.store);
            use_type_invariant(&self.timer);
        }
        match self.state {
            SimState::Editing => {
                self.timer.reset();
                self.state = SimState::Running;
                proof {
                    use_type_invariant(&self.timer);
                }
            },
            SimState::Running => {},
        }
    }

    /// Does what the control stands for in the current state.
    pub fn activate(&mut self)
        ensures
            final(self)@ == old(self)@.activate(),
            final(self)@.wf(),
    {
        match self.state {
            SimState::Editing => self.start(),
            SimState::Running => self.reset(),
        }
    }

    /// One frame of pointer input.
    pub fn point(&mut self, pointer: Option<Point>, click_edge: bool)
        ensures
            final(self)@ == old(self)@.point(pointer_view(pointer), click_edge),
            final(self)@.wf(),
    {
        match self.state {
            SimState::Editing => apply_pointer(&mut self.store, pointer, click_edge),
            SimState::Running => {},
        }
        proof {
            use_type_invariant(&self.store);
            use_type_invariant(&self.timer);
        }
    }

    /// One frame of the clock. Tells whether a generation was computed.
    pub fn tick(&mut self, delta_nanos: u64) -> (generated: bool)
        ensures
            final(self)@ == old(self)@.tick(delta_nanos as nat),
            generated == old(self)@.generates(delta_nanos as nat),
            final(self)@.wf(),
    {
        proof {
            use_type_invariant(&self.store);
            use_type_invariant(&self.timer);
        }
        match self.state {
            SimState::Editing => false,
            SimState::Running => {
                let fired = self.timer.tick(delta_nanos);
                if fired {
                    let any_alive = advance(&mut self.store);
                    if !any_alive {
                        self.reset();
                    }
                }
                proof {
                    use_type_invariant(&self.store);
                    use_type_invariant(&self.timer);
                }
                fired
            },
        }
    }

    /// One whole frame: pointer input, then the clock, then the control,
    /// then what to draw.
    pub fn frame(&mut self, input: FrameInput) -> (output: FrameOutput)
        ensures
            final(self)@ == old(self)@.frame(input@),
            final(self)@.wf(),
            output.control == input.control,
            output.label@ == label_of(final(self)@.state),
            output.sprites.len() == final(self)@.store.grid.cell_count(),
            forall|k: int|
                0 <= k < output.sprites.len()
                    ==> (#[trigger] output.sprites[k])@ == final(self)@.store.sprite(
                    final(self)@.store.grid.index_at(k),
                ),
    {
        let began_in = self.state;
        self.point(input.pointer, input.click_edge);
        self.tick(input.delta_nanos);
        let activated = self.control.interact(input.control);
        if activated {
            match began_in {
                SimState::Editing => self.start(),
                SimState::Running => self.reset(),
            }
        }
        FrameOutput {
            sprites: render(&self.store),
            label: label(self.state),
            control: self.control.shown(),
        }
    }
}

} // verus!
