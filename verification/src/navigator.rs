//! What becomes of the addresses that the game asks for.

use vstd::prelude::*;

use crate::log::{
    applied, command_of, handle_javascript_url, is_log_javascript_url, SharedLogState,
};

verus! {

/// Why no file of the machine is opened for the game.
pub const FILE_ACCESS_ERROR: &'static str = "file access is not supported by this launcher";

/// The desktop, as the game's navigator sees it.
pub struct DesktopNavigatorInterface<'a> {
    pub log_state: &'a mut SharedLogState,
}

impl<'a> DesktopNavigatorInterface<'a> {
    /// Follows an address. A log command is carried out here; returns whether
    /// the address is to be opened in a browser.
    pub fn navigate_to_website(self, url: &str) -> (opens_browser: bool)
        ensures
            opens_browser == (command_of(url@) is None),
            match command_of(url@) {
                Some(command) => final(self.log_state).changed_to(
                    old(self.log_state),
                    applied(old(self.log_state)@, command),
                ),
                None => *final(self.log_state) == *old(self.log_state),
            },
    {
        !handle_javascript_url(url, self.log_state)
    }
}

/// Whether the game may run a `javascript:` URL: only a log command.
pub fn is_javascript_url_allowed(url: &str) -> (allowed: bool)
    ensures
        allowed == (command_of(url@) is Some),
{
    is_log_javascript_url(url)
}

/// Whether the game may connect to a host: always.
pub fn confirm_socket(_host: &str, _port: u16) -> (allowed: bool)
    ensures
        allowed,
{
    true
}

/// A `javascript:` address that the game may run is one that is carried out here
/// and not handed to a browser; every other address goes to the browser.
pub proof fn addresses_go_one_way(url: &str, allowed: bool)
    requires
        call_ensures(is_javascript_url_allowed, (url,), allowed),
    ensures
        forall|desktop: DesktopNavigatorInterface, opens: bool| #[trigger]
            call_ensures(DesktopNavigatorInterface::navigate_to_website, (desktop, url), opens)
                ==> opens == !allowed,
{
}

} // verus!
