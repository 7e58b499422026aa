//! The types the surrounding interface exchanges with the library: pages,
//! menu actions, and the messages they raise.

use vstd::prelude::*;

verus! {

/// Configuration that persists between application runs. Nothing of the
/// scanner's behaviour depends on it yet.
#[derive(Debug, Clone, Default)]
pub struct Config {}

/// Messages emitted by the application and its widgets.
#[derive(Debug, Clone)]
pub enum Message {
    OpenRepositoryUrl,
    SubscriptionChannel,
    ToggleContextPage(ContextPage),
    UpdateConfig(Config),
    LaunchUrl(String),
}

/// The page to display in the application.
#[derive(Debug, Clone, Copy)]
pub enum Page {
    Albums,
    Artists,
    Songs,
}

/// The context page to display in the context drawer.
#[derive(Copy, Clone, Debug, Eq, PartialEq)]
pub enum ContextPage {
    About,
}

impl Default for ContextPage {
    fn default() -> (r: Self)
        ensures
            r == ContextPage::About,
    {
        ContextPage::About
    }
}

/// An entry of the application's menu.
#[derive(Clone, Copy, Debug, Eq, PartialEq)]
pub enum MenuAction {
    About,
}

impl MenuAction {
    /// The message a menu entry raises when it is chosen.
    pub fn message(&self) -> (m: Message)
        ensures
            m == Message::ToggleContextPage(ContextPage::About),
    {
        match self {
            MenuAction::About => Message::ToggleContextPage(ContextPage::About),
        }
    }
}

} // verus!
