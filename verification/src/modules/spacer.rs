//! The spacer: room between modules.
use vstd::prelude::*;

use crate::config::SpacerConfig;
use crate::modules;
use crate::modules::{BarModule, Commands, ModuleState, Orientation, StateModel};
use crate::text;

verus! {

/// The spacer.
#[derive(Debug, Clone)]
pub struct SpacerModule {
    pub config: SpacerConfig,
}

impl SpacerModule {
    /// A spacer with a configuration.
    pub fn new(config: SpacerConfig) -> (r: Self)
        ensures
            r.config == config,
    {
        SpacerModule { config }
    }

    /// What the spacer shows: nothing.
    pub fn current_state(&self, _orientation: Orientation) -> (r: ModuleState)
        ensures
            r.model() == (StateModel {
                icon: None,
                text: None,
                tooltip: None,
                classes: seq!["module-spacer"@],
            }),
    {
        let mut css_classes: Vec<String> = Vec::new();
        css_classes.push("module-spacer".to_owned());
        let r: ModuleState = ModuleState { icon: None, text: None, tooltip: None, css_classes };
        assert(r.model().classes =~= seq!["module-spacer"@]);
        r
    }
}

impl BarModule for SpacerModule {
    open spec fn commands(&self) -> Commands {
        modules::commands_of(self.config.click)
    }

    open spec fn acts_by_itself(&self) -> bool {
        false
    }

    open spec fn title(&self) -> Seq<char> {
        "spacer"@
    }

    fn name(&self) -> (r: &'static str) {
        "spacer"
    }

    fn click_commands(&self) -> (r: (Option<&str>, Option<&str>, Option<&str>)) {
        self.config.click.commands()
    }

    fn has_default_action(&self) -> (r: bool) {
        false
    }
}

/// The button of a spacer: whether it is there, and the size that it asks for (-1 for
/// no more than it needs).
#[derive(Debug, Clone, Copy, PartialEq, Eq, Structural)]
pub struct SpacerButton {
    pub visible: bool,
    pub width: i32,
    pub height: i32,
}

/// The button of a spacer of a size: none where the size is not above zero, else one
/// with that size along the bar.
pub fn configure_spacer_button(size: i32, is_vertical: bool) -> (r: SpacerButton)
    ensures
        r == (if size <= 0 {
            SpacerButton { visible: false, width: 0, height: 0 }
        } else if is_vertical {
            SpacerButton { visible: true, width: (-1) as i32, height: size }
        } else {
            SpacerButton { visible: true, width: size, height: (-1) as i32 }
        }),
{
    if size <= 0 {
        SpacerButton { visible: false, width: 0, height: 0 }
    } else if is_vertical {
        SpacerButton { visible: true, width: -1, height: size }
    } else {
        SpacerButton { visible: true, width: size, height: -1 }
    }
}

/// The module goes by its name, runs the commands of its section, and nothing by itself.
pub proof fn law_spacer_runs_its_commands(m: SpacerModule)
    ensures
        m.title() == "spacer"@,
        !m.acts_by_itself(),
        m.commands().0 == text::opt(m.config.click.on_click_left),
        m.commands().1 == text::opt(m.config.click.on_click_right),
        m.commands().2 == text::opt(m.config.click.on_click_middle),
{
}

} // verus!
