//! The settings of a run, and the check that they can be run with.

use vstd::prelude::*;
use crate::protocol::Protocol;
use crate::Error;

verus! {

/// What the command line and the configuration file say together.
#[derive(Clone, Debug)]
pub struct Args {
    /// Target section from config file to use
    pub target: Option<String>,
    /// Host to connect to
    pub host: Option<String>,
    /// Protocol to use for sending frames
    pub protocol: Protocol,
    /// Target canvas (if supported)
    pub canvas: u8,
    /// Horizontal offset (in px)
    pub x_offset: usize,
    /// Vertical offset (in px)
    pub y_offset: usize,
    /// Width (in px) [default: same as source]
    pub width: Option<u16>,
    /// Height (in px) [default: same as source]
    pub height: Option<u16>,
    /// Number of threads to use for sending pixels
    pub send_threads: usize,
    /// Enable debug output
    pub debug: bool,
}

/// Number of workers of a run that names none.
pub const DEFAULT_SEND_THREADS: usize = 4;

impl Args {
    /// The settings that hold where nothing else was given: no target and
    /// no host, the plaintext protocol on canvas 0, no offset and no size,
    /// four workers, no debug output.
    pub fn config_default() -> (args: Self)
        ensures
            args.target is None,
            args.host is None,
            args.protocol == Protocol::Plaintext,
            args.canvas == 0,
            args.x_offset == 0,
            args.y_offset == 0,
            args.width is None,
            args.height is None,
            args.send_threads == DEFAULT_SEND_THREADS,
            !args.debug,
            args.runnable(),
    {
        Self {
            host: None,
            target: None,
            x_offset: 0,
            y_offset: 0,
            width: None,
            height: None,
            protocol: Protocol::default(),
            canvas: 0,
            debug: false,
            send_threads: DEFAULT_SEND_THREADS,
        }
    }

    /// There is at least one worker to start.
    pub open spec fn runnable(&self) -> bool {
        self.send_threads > 0
    }

    /// The settings say where to connect: by a host or by a target.
    pub open spec fn addressed(&self) -> bool {
        self.host is Some || self.target is Some
    }
}

/// Accepts settings that have a worker to start and a place to connect to.
///
/// The worker count is looked at first: settings that fail both ways are
/// refused for their worker count.
pub fn verify_args(args: &Args) -> (r: Result<(), Error>)
    ensures
        r is Ok <==> args.runnable() && args.addressed(),
        !args.runnable() ==> (r matches Err(Error::InvalidConfig(why)) && why@
            == "send_threads must be greater than 0"@),
        args.runnable() && !args.addressed() ==> (r matches Err(Error::InvalidConfig(why)) && why@
            == "host or target must be specified"@),
{
    if args.send_threads == 0 {
        return Err(Error::InvalidConfig("send_threads must be greater than 0".to_owned()));
    }
    if args.host.is_none() && args.target.is_none() {
        return Err(Error::InvalidConfig("host or target must be specified".to_owned()));
    }
    Ok(())
}

} // verus!
