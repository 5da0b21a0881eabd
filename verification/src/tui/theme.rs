use vstd::prelude::*;

verus! {

/// The lines of the start-screen logo.
pub fn logo_lines() -> (r: Vec<&'static str>)
    ensures
        r.len() == 9,
{
    let mut v: Vec<&'static str> = Vec::new();
    v.push("   ░███                                     ░██ ░██                      ");
    v.push("  ░██░██                                    ░██                          ");
    v.push(" ░██  ░██  ░████████   ░████████  ░███████  ░██ ░██ ░███████   ░██████   ");
    v.push("░█████████ ░██    ░██ ░██    ░██ ░██    ░██ ░██ ░██░██    ░██       ░██  ");
    v.push("░██    ░██ ░██    ░██ ░██    ░██ ░█████████ ░██ ░██░██         ░███████  ");
    v.push("░██    ░██ ░██    ░██ ░██   ░███ ░██        ░██ ░██░██    ░██ ░██   ░██  ");
    v.push("░██    ░██ ░██    ░██  ░█████░██  ░███████  ░██ ░██ ░███████   ░█████░██ ");
    v.push("                             ░██                                          ");
    v.push("                       ░███████                                          ");
    v
}

} // verus!
