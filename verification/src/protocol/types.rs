//! The message type names of the wire protocol.
use vstd::prelude::*;

verus! {

// Client to server
pub const NAVIGATE: &'static str = "navigate";

pub const CLICK: &'static str = "click";

pub const MOUSE_DOWN: &'static str = "mouseDown";

pub const MOUSE_MOVE: &'static str = "mouseMove";

pub const MOUSE_UP: &'static str = "mouseUp";

pub const SCROLL: &'static str = "scroll";

pub const TYPE: &'static str = "type";

pub const KEY_PRESS: &'static str = "keyPress";

pub const EVALUATE: &'static str = "evaluate";

pub const RESIZE: &'static str = "resize";

pub const REQUEST_SCREENSHOT: &'static str = "requestScreenshot";

pub const SET_PROXY: &'static str = "setProxy";

pub const GO_BACK: &'static str = "goBack";

pub const GO_FORWARD: &'static str = "goForward";

pub const CREATE_TAB: &'static str = "createTab";

pub const SWITCH_TAB: &'static str = "switchTab";

pub const CLOSE_TAB: &'static str = "closeTab";

pub const FIND_IN_PAGE: &'static str = "findInPage";

// Server to client
pub const FRAME: &'static str = "frame";

pub const URL_CHANGED: &'static str = "urlChanged";

pub const CONSOLE: &'static str = "console";

pub const ERROR: &'static str = "error";

pub const SESSION_INFO: &'static str = "sessionInfo";

pub const PONG: &'static str = "pong";

pub const EVALUATE_RESULT: &'static str = "evaluateResult";

pub const LOADING_STATE: &'static str = "loadingState";

pub const TAB_LIST: &'static str = "tabList";

pub const FIND_RESULTS: &'static str = "findResults";

} // verus!
