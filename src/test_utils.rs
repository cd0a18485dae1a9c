use vstd::prelude::*;

use crate::arg_parser::{parse_into, ArgParser, Args, ArgsView};
use crate::config::strings_view;
use crate::text::owned;

verus! {

/// Builds values for tests.
pub struct MockFactory;

impl MockFactory {
    /// The parsed form of the command line `args` (the program's name first).
    pub fn mock_args(args: &[&str]) -> (r: Args)
        requires
            args@.len() >= 2,
        ensures
            r.wf(),
            r@ == parse_into(
                ArgsView {
                    command: None,
                    flags: Set::empty(),
                    named: Map::empty(),
                    unnamed: Seq::empty(),
                    free: Seq::empty(),
                },
                args@.map_values(|s: &str| s@),
            ),
    {
        let mut line: Vec<String> = Vec::new();
        let n = args.len();
        let mut i: usize = 0;
        while i < n
            invariant
                n == args@.len(),
                i <= n,
                strings_view(line@) == args@.take(i as int).map_values(|s: &str| s@),
            decreases n - i,
        {
            let ghost before = strings_view(line@);
            line.push(owned(args[i]));
            assert(strings_view(line@) =~= before.push(args@[i as int]@));
            assert(args@.take(i + 1).map_values(|s: &str| s@) =~= args@.take(i as int).map_values(
                |s: &str| s@,
            ).push(args@[i as int]@));
            i += 1;
        }
        assert(args@.take(n as int) =~= args@);
        let mut res = Args::new();
        let parser = ArgParser::new(line);
        let _ = parser.try_parse(&mut res);
        res
    }
}

} // verus!
