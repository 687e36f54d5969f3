//! What the desktop is asked to show and play: the names of the system sounds
//! and the scripts that raise an alert.

use crate::text::{append_chars, chars_of, equals, replace, replace_all, text_of};
use vstd::prelude::*;

verus! {

/// A desktop that notifications are shown on.
#[derive(Clone, Copy, Debug, PartialEq, Eq, Structural)]
pub enum Desktop {
    MacOs,
    Windows,
}

/// The system sound that an occasion is played with on a desktop.
pub open spec fn sound_of(desktop: Desktop, occasion: Seq<char>) -> Seq<char> {
    match desktop {
        Desktop::MacOs => if occasion == "receive-photographer"@ {
            "Glass"@
        } else if occasion == "receive-editor"@ {
            "Ping"@
        } else if occasion == "send-complete"@ {
            "Hero"@
        } else if occasion == "error"@ {
            "Basso"@
        } else {
            "Pop"@
        },
        Desktop::Windows => if occasion == "receive-photographer"@ {
            "Asterisk"@
        } else if occasion == "receive-editor"@ {
            "Exclamation"@
        } else if occasion == "send-complete"@ {
            "Hand"@
        } else if occasion == "error"@ {
            "Beep"@
        } else {
            "Asterisk"@
        },
    }
}

/// The system sound that an occasion is played with; see [`sound_of`].
pub fn sound_for(desktop: Desktop, occasion: &str) -> (sound: &'static str)
    ensures
        sound@ == sound_of(desktop, occasion@),
{
    let photographer = equals(occasion, "receive-photographer");
    let editor = equals(occasion, "receive-editor");
    let complete = equals(occasion, "send-complete");
    let error = equals(occasion, "error");
    match desktop {
        Desktop::MacOs => {
            if photographer {
                "Glass"
            } else if editor {
                "Ping"
            } else if complete {
                "Hero"
            } else if error {
                "Basso"
            } else {
                "Pop"
            }
        },
        Desktop::Windows => {
            if photographer {
                "Asterisk"
            } else if editor {
                "Exclamation"
            } else if complete {
                "Hand"
            } else if error {
                "Beep"
            } else {
                "Asterisk"
            }
        },
    }
}

/// The file of a system sound of macOS.
pub fn sound_file(sound: &str) -> (path: String)
    ensures
        path@ == "/System/Library/Sounds/"@ + sound@ + ".aiff"@,
{
    let mut path = chars_of("/System/Library/Sounds/");
    append_chars(&mut path, &chars_of(sound));
    append_chars(&mut path, &chars_of(".aiff"));
    text_of(&path)
}

/// The script that plays a system sound of Windows.
pub fn sound_script(sound: &str) -> (script: String)
    ensures
        script@ == "[System.Media.SystemSounds]::"@ + sound@ + "::Play()"@,
{
    let mut script = chars_of("[System.Media.SystemSounds]::");
    append_chars(&mut script, &chars_of(sound));
    append_chars(&mut script, &chars_of("::Play()"));
    text_of(&script)
}

/// The script that raises an alert with a title and a body. The quotes of the
/// script are escaped in both: `"` as `\"` on macOS, `'` as `''` on Windows.
pub open spec fn alert_script_of(desktop: Desktop, title: Seq<char>, body: Seq<char>) -> Seq<char> {
    match desktop {
        Desktop::MacOs => "display alert \""@ + replace_all(title, "\""@, "\\\""@)
            + "\" message \""@ + replace_all(body, "\""@, "\\\""@) + "\""@,
        Desktop::Windows =>
            "Add-Type -AssemblyName System.Windows.Forms; [System.Windows.Forms.MessageBox]::Show('"@
            + replace_all(body, "'"@, "''"@) + "', '"@ + replace_all(title, "'"@, "''"@)
            + "', 'OK', 'Information')"@,
    }
}

/// The script that raises an alert; see [`alert_script_of`].
pub fn alert_script(desktop: Desktop, title: &str, body: &str) -> (script: String)
    ensures
        script@ == alert_script_of(desktop, title@, body@),
{
    match desktop {
        Desktop::MacOs => {
            let quote = chars_of("\"");
            let escaped = chars_of("\\\"");
            let mut script = chars_of("display alert \"");
            append_chars(&mut script, &replace(&chars_of(title), &quote, &escaped));
            append_chars(&mut script, &chars_of("\" message \""));
            append_chars(&mut script, &replace(&chars_of(body), &quote, &escaped));
            append_chars(&mut script, &chars_of("\""));
            text_of(&script)
        },
        Desktop::Windows => {
            let quote = chars_of("'");
            let escaped = chars_of("''");
            let mut script = chars_of(
                "Add-Type -AssemblyName System.Windows.Forms; [System.Windows.Forms.MessageBox]::Show('",
            );
            append_chars(&mut script, &replace(&chars_of(body), &quote, &escaped));
            append_chars(&mut script, &chars_of("', '"));
            append_chars(&mut script, &replace(&chars_of(title), &quote, &escaped));
            append_chars(&mut script, &chars_of("', 'OK', 'Information')"));
            text_of(&script)
        },
    }
}

} // verus!
