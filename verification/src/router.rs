//! Navigation between screens, with a history for going back.
use vstd::prelude::*;
use crate::pages::PageAction;

verus! {

/// The screens the application can show.
#[derive(Debug, Clone, Copy, PartialEq, Eq, Structural)]
pub enum Route {
    Login,
    Dashboard,
}

/// The screen and history after going to `route`: the current screen is
/// remembered unless `route` is the current screen.
pub open spec fn after_push(current: Route, history: Seq<Route>, route: Route) -> (Route, Seq<Route>) {
    if route != current {
        (route, history.push(current))
    } else {
        (current, history)
    }
}

/// The screen and history after going back: the last remembered screen
/// becomes current, if there is one.
pub open spec fn after_back(current: Route, history: Seq<Route>) -> (Route, Seq<Route>) {
    if history.len() > 0 {
        (history.last(), history.drop_last())
    } else {
        (current, history)
    }
}

/// The current screen and the screens visited before it. Building the
/// page for a screen is left to the caller: the methods say when the
/// current screen changed and its page must be built anew.
pub struct Router {
    pub current_route: Route,
    pub history: Vec<Route>,
}

impl Router {
    /// Starts on `initial_route` with no history.
    pub fn new(initial_route: Route) -> (r: Router)
        ensures
            r.current_route == initial_route,
            r.history@.len() == 0,
    {
        Router { current_route: initial_route, history: Vec::new() }
    }

    /// The current screen.
    pub fn current(&self) -> (r: &Route)
        ensures
            *r == self.current_route,
    {
        &self.current_route
    }

    /// Goes to `route`, remembering the current screen; going to the
    /// current screen does nothing. Returns whether the screen changed.
    pub fn push(&mut self, route: Route) -> (changed: bool)
        ensures
            changed == (route != old(self).current_route),
            (final(self).current_route, final(self).history@) == after_push(
                old(self).current_route,
                old(self).history@,
                route,
            ),
    {
        if route != self.current_route {
            self.history.push(self.current_route);
            self.current_route = route;
            true
        } else {
            false
        }
    }

    /// Returns to the screen visited last, if any. Returns whether it did.
    pub fn back(&mut self) -> (went_back: bool)
        ensures
            went_back == (old(self).history@.len() > 0),
            (final(self).current_route, final(self).history@) == after_back(
                old(self).current_route,
                old(self).history@,
            ),
    {
        if let Some(previous) = self.history.pop() {
            self.current_route = previous;
            true
        } else {
            false
        }
    }

    /// Follows a page's request: `Navigate` pushes, `Back` goes back, and
    /// anything else is ignored. Returns whether the screen changed.
    pub fn handle_action(&mut self, action: PageAction) -> (changed: bool)
        ensures
            match action {
                PageAction::Navigate(route) => {
                    &&& changed == (route != old(self).current_route)
                    &&& (final(self).current_route, final(self).history@) == after_push(
                        old(self).current_route,
                        old(self).history@,
                        route,
                    )
                },
                PageAction::Back => {
                    &&& changed == (old(self).history@.len() > 0)
                    &&& (final(self).current_route, final(self).history@) == after_back(
                        old(self).current_route,
                        old(self).history@,
                    )
                },
                _ => !changed && final(self).current_route == old(self).current_route
                    && final(self).history@ == old(self).history@,
            },
    {
        match action {
            PageAction::Navigate(route) => self.push(route),
            PageAction::Back => self.back(),
            _ => false,
        }
    }
}

/// Going to another screen and then back returns to the screen and the
/// history one started with.
pub proof fn law_back_undoes_push(current: Route, history: Seq<Route>, route: Route)
    requires
        route != current,
    ensures
        ({
            let p = after_push(current, history, route);
            after_back(p.0, p.1)
        }) == (current, history),
{
    assert(history.push(current).drop_last() =~= history);
}

/// Going to the current screen changes nothing.
pub proof fn law_push_current_is_noop(current: Route, history: Seq<Route>)
    ensures
        after_push(current, history, current) == (current, history),
{
}

/// Going back with no history changes nothing.
pub proof fn law_back_on_empty_is_noop(current: Route)
    ensures
        after_back(current, Seq::<Route>::empty()) == (current, Seq::<Route>::empty()),
{
}

} // verus!
