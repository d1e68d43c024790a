//! The script that is added to each HTML page.
//!
//! It connects to the server, reloads the page on the reload message, and connects again
//! when the connection is lost.
use vstd::prelude::*;

use crate::reload::RELOAD_MESSAGE;

verus! {

/// The path that the script connects to and the server takes WebSocket connections at.
pub const WS_ROUTE: &'static str = "/ws";

/// The script up to the path that it connects to.
pub const SCRIPT_HEAD: &'static str = r#"
<script>
    console.log("JS Script Injected");
    (function() {
        function connect() {
            console.log("Before connect() call");
            const socket = new WebSocket(`ws://${window.location.host}"#;

/// The script from behind the path that it connects to, up to the message that it waits for.
pub const SCRIPT_MIDDLE: &'static str = r#"`);
            console.log("Connecting to WebSocket...");
            socket.onopen = () => {
                console.log('WebSocket connection opened');
            };
            socket.onmessage = (event) => {
                console.log("WebSocket message received (raw data):", event.data);
                console.log("Type of event.data:", typeof event.data);
                const messageData = String(event.data);
                console.log("WebSocket message as String:", messageData);
                if (messageData === ""#;

/// The script from behind the message that it waits for.
pub const SCRIPT_TAIL: &'static str = r#"") {
                    console.log("Entering reload block");
                    console.log("Reloading page NOW... (HARD RELOAD)");
                    console.log("Page reload function called (HARD RELOAD)");
                    // Only reload if not already in the process of reloading
                    window.location.reload(true);
                } else {
                    console.log("Received message is NOT 'rld':", messageData);
                }
            };
            socket.onclose = () => {
                console.log("WebSocket disconnected, attempting to reconnect...");
                setTimeout(connect, 1000);
            };
            socket.onerror = (error) => {
                console.error('WebSocket error:', error);
                console.error('WebSocket onerror event:', event);
                console.error('WebSocket onerror type:', typeof error);
            };
        }
        connect();
    })();
</script>
"#;

/// The script as text. It connects to the server's route and waits for the message that the
/// reload task sends.
pub open spec fn script_text() -> Seq<char> {
    SCRIPT_HEAD@ + WS_ROUTE@ + SCRIPT_MIDDLE@ + RELOAD_MESSAGE@ + SCRIPT_TAIL@
}

/// The script to add to each HTML page.
pub fn live_reload_script() -> (script: String)
    ensures
        script@ == script_text(),
{
    let mut script = SCRIPT_HEAD.to_owned();
    script.append(WS_ROUTE);
    script.append(SCRIPT_MIDDLE);
    script.append(RELOAD_MESSAGE);
    script.append(SCRIPT_TAIL);
    script
}

} // verus!
