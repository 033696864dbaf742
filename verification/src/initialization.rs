//! What the program is started with. Reading the arguments, the files and
//! the environment is not part of the library.

use vstd::prelude::*;
use vstd::string::{StrSliceExecFns, StringExecFns};
use crate::config::Config;
use crate::errors::MyGridInitError;
use crate::manager_fox_cloud::Fox;
use crate::manager_mail::{chars_of, slice_chars, Mail};
use crate::text::{trim, trimmed_of};
use crate::scheduler::{Block, Schedule};
use crate::text::string_of;
use crate::charge::LastCharge;
use crate::worker::{recover, recovered, Recovery};

verus! {

/// The managers that the program works with.
pub struct Mgr {
    pub fox: Fox,
    pub mail: Mail,
    pub schedule: Schedule,
}

/// What an argument that names the configuration file begins with.
pub open spec fn config_prefix() -> Seq<char> {
    "--config="@
}

/// The argument names the configuration file.
pub open spec fn names_config(arg: Seq<char>) -> bool {
    arg.len() >= config_prefix().len() && arg.subrange(0, config_prefix().len() as int)
        == config_prefix()
}

/// `i` is the position of the first argument that names the configuration file.
pub open spec fn first_config_arg(args: Seq<String>, i: int) -> bool {
    &&& 0 <= i < args.len()
    &&& names_config(args[i]@)
    &&& forall|j: int| 0 <= j < i ==> !names_config((#[trigger] args[j])@)
}

/// Whether the argument names the configuration file.
pub fn is_config_arg(arg: &str) -> (r: bool)
    ensures
        r == names_config(arg@),
{
    let prefix = "--config=";
    proof {
        reveal_strlit("--config=");
    }
    let n = arg.unicode_len();
    if n < 9 {
        return false;
    }
    let mut i: usize = 0;
    while i < 9
        invariant
            i <= 9,
            n == arg@.len(),
            n >= 9,
            prefix@ == config_prefix(),
            prefix@.len() == 9,
            forall|j: int| 0 <= j < i ==> arg@[j] == prefix@[j],
        decreases 9 - i,
    {
        if arg.get_char(i) != prefix.get_char(i) {
            assert(arg@.subrange(0, 9)[i as int] != prefix@[i as int]);
            return false;
        }
        i += 1;
    }
    assert(arg@.subrange(0, 9) =~= prefix@);
    true
}

/// Finds the path of the configuration file among the arguments: what
/// follows `--config=` in the first argument that begins so. It is an error
/// if there is no such argument.
pub fn config_path(args: &Vec<String>) -> (r: Result<String, MyGridInitError>)
    ensures
        match r {
            Ok(path) => exists|i: int|
                first_config_arg(args@, i) && path@ == (#[trigger] args@[i])@.subrange(
                    config_prefix().len() as int,
                    args@[i]@.len() as int,
                ),
            Err(e) => (forall|j: int| 0 <= j < args@.len() ==> !names_config((#[trigger] args@[j])@))
                && e.0@ == "config file argument should be present"@,
        },
{
    let n = args.len();
    let mut i: usize = 0;
    proof {
        reveal_strlit("--config=");
    }
    while i < n
        invariant
            n == args.len(),
            i <= n,
            config_prefix().len() == 9,
            forall|j: int| 0 <= j < i ==> !names_config((#[trigger] args@[j])@),
        decreases n - i,
    {
        if is_config_arg(args[i].as_str()) {
            let chars = chars_of(args[i].as_str());
            let path = slice_chars(&chars, 9, chars.len());
            let text = string_of(&path);
            assert(first_config_arg(args@, i as int));
            return Ok(text);
        }
        i += 1;
    }
    Err(MyGridInitError(String::from_str("config file argument should be present")))
}

/// What a credential file holds, without the white space around it.
pub open spec fn credential_of(content: Option<String>, configured: Seq<char>) -> Seq<char> {
    match content {
        Some(c) => trimmed_of(c@),
        None => configured,
    }
}

/// Lets the credentials that are kept in files of their own override those
/// of the configuration: the key and the serial number for the inverter's
/// cloud service, and the user and the password for the mail service. Each
/// file is taken whole, without the white space around it.
pub fn override_credentials(
    config: &mut Config,
    fox_ess_api_key: Option<String>,
    fox_ess_inverter_sn: Option<String>,
    mail_smtp_user: Option<String>,
    mail_smtp_password: Option<String>,
)
    ensures
        final(config).fox_ess.api_key@ == credential_of(
            fox_ess_api_key,
            old(config).fox_ess.api_key@,
        ),
        final(config).fox_ess.inverter_sn@ == credential_of(
            fox_ess_inverter_sn,
            old(config).fox_ess.inverter_sn@,
        ),
        final(config).mail.smtp_user@ == credential_of(mail_smtp_user, old(config).mail.smtp_user@),
        final(config).mail.smtp_password@ == credential_of(
            mail_smtp_password,
            old(config).mail.smtp_password@,
        ),
        final(config).charge == old(config).charge,
        final(config).files == old(config).files,
        final(config).general == old(config).general,
        final(config).mail.smtp_endpoint == old(config).mail.smtp_endpoint,
        final(config).mail.from == old(config).mail.from,
        final(config).mail.to == old(config).mail.to,
{
    match fox_ess_api_key {
        Some(c) => {
            config.fox_ess.api_key = trim(c.as_str());
        },
        None => {},
    }
    match fox_ess_inverter_sn {
        Some(c) => {
            config.fox_ess.inverter_sn = trim(c.as_str());
        },
        None => {},
    }
    match mail_smtp_user {
        Some(c) => {
            config.mail.smtp_user = trim(c.as_str());
        },
        None => {},
    }
    match mail_smtp_password {
        Some(c) => {
            config.mail.smtp_password = trim(c.as_str());
        },
        None => {},
    }
}

/// Puts together what the program starts with at `now`: the managers, from
/// the configuration and the blocks of the schedule that were loaded, if
/// any; and what to go on with, from the active block and the record of the
/// last charge that were kept. A kept block that `now` lies within is the
/// active block again, as it was kept, and no block is then to be found
/// anew; a record of the last charge that is older than 23 hours is left
/// behind.
pub fn init(
    config: &Config,
    mail: Mail,
    schedule_blocks: Option<Vec<Block>>,
    active_block: Option<Block>,
    last_charge: Option<LastCharge>,
    now: u64,
) -> (r: (Mgr, Recovery))
    ensures
        r.0.fox.api_key@ == config.fox_ess.api_key@,
        r.0.fox.sn@ == config.fox_ess.inverter_sn@,
        r.0.mail == mail,
        r.0.schedule.soc_wh == config.charge.soc_wh,
        r.0.schedule.schedule_dir@ == config.files.schedule_dir@,
        r.0.schedule.blocks@ == match schedule_blocks {
            Some(b) => b@,
            None => Seq::<Block>::empty(),
        },
        r.1 == recovered(active_block, last_charge, now),
{
    let fox = Fox::new(config.fox_ess.api_key.as_str(), config.fox_ess.inverter_sn.as_str());
    let schedule = Schedule::new(
        config.files.schedule_dir.as_str(),
        config.charge.soc_wh,
        schedule_blocks,
    );
    (Mgr { fox, mail, schedule }, recover(active_block, last_charge, now))
}

} // verus!
