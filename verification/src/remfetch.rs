//! The fetch-style banner: program data, the current time, the operating
//! system and the config path, laid out beside a piece of ASCII art.

use crate::remdata::{RemData, RemDataV};
use vstd::prelude::*;

verus! {

/// The full banner text for the given data, time, operating system and
/// config path.
pub open spec fn banner_spec(
    d: RemDataV,
    time_now: Seq<char>,
    os_name: Seq<char>,
    config_path: Seq<char>,
) -> Seq<char> {
    "                          ,.           REMSLICE\n"@
        + "                        == =-\\         --------\n"@
        + "                      ==.  O  \\        REM/Recent Version: "@ + d.recent_version
        + "\n"@ + "                    ==   O_____|       REM/Edit Date:      "@ + d.edit_date
        + "\n"@ + "                  ==  ____   O |       REM/Morning Star:   "@ + (if d.morning {
        "[success]"@
    } else {
        "[failure]"@
    }) + "\n"@ + "                ==____        =        Current Time:       "@ + time_now + "\n"@
        + "              ==]_  O  . .   /         OS:                 "@ + os_name + "\n"@
        + "            == | ] .        =          Config Path:        "@ + config_path + "\n"@
        + "          ==  |    ]  O   O/           \n"@
        + "        ==    | O    ]    =            \n"@
        + "      ==  .  |    .   ]==-             \n"@
        + "    /=      |  .O   ==-                \n"@ + "     -===  |  =====-                   \n"@
        + "         -===-                         \n"@ + "                                       \n"@
}

/// Fetch the info: render the banner for the given data, with the already
/// obtained current time, operating system name and config path beside it.
pub fn remfetch(current_remdata: &RemData, time_now: &str, os_name: &str, config_path: &str) -> (r:
    String)
    ensures
        r@ == banner_spec(current_remdata@, time_now@, os_name@, config_path@),
{
    let mut res = String::new();
    res.append("                          ,.           REMSLICE\n");
    res.append("                        == =-\\         --------\n");
    res.append("                      ==.  O  \\        REM/Recent Version: ");
    res.append(current_remdata.get_r().as_str());
    res.append("\n");
    res.append("                    ==   O_____|       REM/Edit Date:      ");
    res.append(current_remdata.get_e().as_str());
    res.append("\n");
    res.append("                  ==  ____   O |       REM/Morning Star:   ");
    if current_remdata.get_m() {
        res.append("[success]");
    } else {
        res.append("[failure]");
    }
    res.append("\n");
    res.append("                ==____        =        Current Time:       ");
    res.append(time_now);
    res.append("\n");
    res.append("              ==]_  O  . .   /         OS:                 ");
    res.append(os_name);
    res.append("\n");
    res.append("            == | ] .        =          Config Path:        ");
    res.append(config_path);
    res.append("\n");
    res.append("          ==  |    ]  O   O/           \n");
    res.append("        ==    | O    ]    =            \n");
    res.append("      ==  .  |    .   ]==-             \n");
    res.append("    /=      |  .O   ==-                \n");
    res.append("     -===  |  =====-                   \n");
    res.append("         -===-                         \n");
    res.append("                                       \n");
    proof {
        assert(res@ =~= banner_spec(current_remdata@, time_now@, os_name@, config_path@));
    }
    res
}

} // verus!
