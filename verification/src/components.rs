//! The timer window's building blocks, minus their rendering.
//!
//! Each component is the data one panel shows; drawing it, with its fonts
//! and formatters, happens outside this crate.  Times shown by components
//! are formatted to a declared accuracy; colors are carried as packed
//! `0xRRGGBB` values.

use vstd::prelude::*;

use crate::splits::{
    count_finished, spec_grouping_of, spec_starts_with, RunModel, SplitComponent,
    SplitComponentConfig,
};
use crate::text::{dec_digits, u32_to_string};

verus! {

/// How precisely a time is rendered.
#[derive(Clone, Copy, PartialEq, Eq, Structural, Debug)]
pub enum Accuracy {
    Seconds,
    Tenths,
    Hundredths,
    Milliseconds,
}

#[derive(Clone, Copy, PartialEq, Eq, Structural, Debug)]
pub struct TitleComponentConfig {
    pub show_game_name: bool,
    pub show_cat_name: bool,
    pub show_attempt_count: bool,
    pub show_finished_run_count: bool,
}

impl Default for TitleComponentConfig {
    fn default() -> (c: Self)
        ensures
            c.show_game_name,
            c.show_cat_name,
            c.show_attempt_count,
            c.show_finished_run_count,
    {
        TitleComponentConfig {
            show_game_name: true,
            show_cat_name: true,
            show_attempt_count: true,
            show_finished_run_count: true,
        }
    }
}

/// The title panel: game and category names plus a "finished / attempted"
/// counter, all computed once from the run.
pub struct TitleComponent {
    pub game_name: String,
    pub cat_name: String,
    pub attempt_string: String,
    pub config: TitleComponentConfig,
}

impl TitleComponent {
    pub fn new(run: &crate::splits::RunModel, config: &TitleComponentConfig) -> (t: Self)
        requires
            run.attempt_history@.len() <= u32::MAX,
        ensures
            t.game_name@ == run.game_name@,
            t.cat_name@ == run.category_name@,
            t.attempt_string@ == dec_digits(count_finished(run.attempt_history@) as nat) + "/"@
                + dec_digits(run.attempt_count as nat),
            t.config == *config,
    {
        let mut finished_count: u32 = 0;
        let n = run.attempt_history.len();
        let mut i: usize = 0;
        while i < n
            invariant
                n == run.attempt_history@.len(),
                n <= u32::MAX,
                i <= n,
                finished_count == count_finished(run.attempt_history@.take(i as int)),
                finished_count <= i,
            decreases n - i,
        {
            if run.attempt_history[i] {
                finished_count = finished_count + 1;
            }
            proof {
                assert(run.attempt_history@.take(i + 1).drop_last() =~= run.attempt_history@.take(
                    i as int,
                ));
            }
            i += 1;
        }
        proof {
            assert(run.attempt_history@.take(n as int) =~= run.attempt_history@);
        }
        let mut attempt_string = u32_to_string(finished_count);
        attempt_string.append("/");
        let total = u32_to_string(run.attempt_count);
        attempt_string.append(total.as_str());
        TitleComponent {
            game_name: run.game_name.clone(),
            cat_name: run.category_name.clone(),
            attempt_string,
            config: *config,
        }
    }
}

/// Configuration of the main time display.
pub struct TimerComponentConfig {
    timer_accuracy: Accuracy,
}

impl TimerComponentConfig {
    pub closed spec fn spec_accuracy(self) -> Accuracy {
        self.timer_accuracy
    }

    pub fn new(timer_accuracy: Accuracy) -> (c: Self)
        ensures
            c.spec_accuracy() == timer_accuracy,
    {
        TimerComponentConfig { timer_accuracy }
    }
}

impl Default for TimerComponentConfig {
    fn default() -> (c: Self)
        ensures
            c.spec_accuracy() == Accuracy::Hundredths,
    {
        TimerComponentConfig { timer_accuracy: Accuracy::Hundredths }
    }
}

/// The main time display: its only state is the accuracy its formatter was
/// built with.
pub struct RunTimerComponent {
    pub accuracy: Accuracy,
}

impl RunTimerComponent {
    pub fn new(config: &TimerComponentConfig) -> (r: Self)
        ensures
            r.accuracy == config.spec_accuracy(),
    {
        RunTimerComponent { accuracy: config.timer_accuracy }
    }
}

/// Which component a layout slot holds, together with its configuration.
pub enum TimerComponentType {
    TitleComponent(TitleComponentConfig),
    TimerComponent(TimerComponentConfig),
    SplitComponent(SplitComponentConfig),
}

impl TimerComponentType {
    /// The name a settings menu shows for this component kind.
    pub fn label(&self) -> (r: String)
        ensures
            match self {
                TimerComponentType::TitleComponent(_) => r@ == "Title"@,
                TimerComponentType::TimerComponent(_) => r@ == "Timer"@,
                TimerComponentType::SplitComponent(_) => r@ == "Splits"@,
            },
    {
        match self {
            TimerComponentType::TitleComponent(_) => String::from_str("Title"),
            TimerComponentType::TimerComponent(_) => String::from_str("Timer"),
            TimerComponentType::SplitComponent(_) => String::from_str("Splits"),
        }
    }
}

/// The layout the timer window starts with: title, splits, then the time.
pub struct TimerConfig {
    pub components: Vec<TimerComponentType>,
}

impl Default for TimerConfig {
    fn default() -> (c: Self)
        ensures
            c.components@.len() == 3,
            c.components@[0] is TitleComponent,
            c.components@[1] is SplitComponent,
            c.components@[2] is TimerComponent,
    {
        let mut components: Vec<TimerComponentType> = Vec::new();
        components.push(TimerComponentType::TitleComponent(TitleComponentConfig::default()));
        components.push(TimerComponentType::SplitComponent(SplitComponentConfig::default()));
        components.push(TimerComponentType::TimerComponent(TimerComponentConfig::default()));
        TimerConfig { components }
    }
}

/// A live component: the state its panel draws from.
pub enum ComponentInstance {
    Title(TitleComponent),
    Timer(RunTimerComponent),
    Splits(SplitComponent),
}

/// `inst` is the freshly built instance for slot `c` of the layout, bound
/// to `run`.
pub open spec fn spec_component_matches(
    c: TimerComponentType,
    inst: ComponentInstance,
    run: RunModel,
) -> bool {
    match (c, inst) {
        (TimerComponentType::TitleComponent(cfg), ComponentInstance::Title(t)) => t.config == cfg
            && t.game_name@ == run.game_name@ && t.cat_name@ == run.category_name@,
        (TimerComponentType::TimerComponent(cfg), ComponentInstance::Timer(t)) => t.accuracy
            == cfg.spec_accuracy(),
        (TimerComponentType::SplitComponent(cfg), ComponentInstance::Splits(s)) => s.config == cfg
            && s.segment_pos == 0 && s.last_real_segment == 0 && spec_grouping_of(
            s.subsplit_map,
            run.segment_names@,
        ),
        _ => false,
    }
}

/// Build a fresh instance for every slot of the configured layout, in
/// order, all bound to the given run.
pub fn reload_components(run: &RunModel, config: &TimerConfig) -> (r: Vec<ComponentInstance>)
    requires
        run.attempt_history@.len() <= u32::MAX,
        run.segment_names@.len() == 0 || !spec_starts_with(run.segment_names@.last()@, '-'),
    ensures
        r@.len() == config.components@.len(),
        forall|k: int|
            0 <= k < r@.len() ==> spec_component_matches(
                config.components@[k],
                #[trigger] r@[k],
                *run,
            ),
{
    let mut r: Vec<ComponentInstance> = Vec::new();
    let n = config.components.len();
    let mut i: usize = 0;
    while i < n
        invariant
            run.attempt_history@.len() <= u32::MAX,
            run.segment_names@.len() == 0 || !spec_starts_with(
                run.segment_names@.last()@,
                '-',
            ),
            n == config.components@.len(),
            i <= n,
            r@.len() == i,
            forall|k: int|
                0 <= k < i ==> spec_component_matches(
                    config.components@[k],
                    #[trigger] r@[k],
                    *run,
                ),
        decreases n - i,
    {
        let inst = match &config.components[i] {
            TimerComponentType::TitleComponent(cfg) => ComponentInstance::Title(
                TitleComponent::new(run, cfg),
            ),
            TimerComponentType::TimerComponent(cfg) => ComponentInstance::Timer(
                RunTimerComponent::new(cfg),
            ),
            TimerComponentType::SplitComponent(cfg) => ComponentInstance::Splits(
                SplitComponent::new(run, cfg),
            ),
        };
        r.push(inst);
        i += 1;
    }
    r
}

} // verus!
