//! The collector's command line: a run name, and optional database and
//! table names.

use vstd::prelude::*;

verus! {

/// The collector's settings, as parsed from its arguments.
#[derive(Clone, Debug)]
pub struct Config {
    pub db_name: String,
    pub table_name: String,
    pub run_name: String,
}

/// Mathematical image of a `Config`.
#[verifier::ext_equal]
pub struct ConfigV {
    pub db_name: Seq<char>,
    pub table_name: Seq<char>,
    pub run_name: Seq<char>,
}

impl View for Config {
    type V = ConfigV;

    open spec fn view(&self) -> ConfigV {
        ConfigV {
            db_name: self.db_name@,
            table_name: self.table_name@,
            run_name: self.run_name@,
        }
    }
}

/// What the arguments parse to: the run name is the second argument behind a
/// fixed prefix; `--db` and `--table` may each stand at position two or
/// four; missing names fall back to the defaults. Too few, too many, or an
/// odd number of trailing arguments is rejected, with the exact message.
pub open spec fn spec_config_args(args: Seq<Seq<char>>) -> Result<ConfigV, Seq<char>> {
    if args.len() > 6 {
        Result::Err("too many arguments"@)
    } else if args.len() < 2 {
        Result::Err("not enough arguments"@)
    } else if args.len() == 3 || args.len() == 5 {
        Result::Err("either 'database_name' or 'table_name' was not provided"@)
    } else {
        Result::Ok(
            ConfigV {
                db_name: if args.len() >= 4 && args[2] == "--db"@ {
                    args[3]
                } else if args.len() >= 6 && args[4] == "--db"@ {
                    args[5]
                } else {
                    "instrumentation.db"@
                },
                table_name: if args.len() >= 4 && args[2] == "--table"@ {
                    args[3]
                } else if args.len() >= 6 && args[4] == "--table"@ {
                    args[5]
                } else {
                    "instrumentation"@
                },
                run_name: "run_"@ + args[1],
            },
        )
    }
}

impl Config {
    /// Parses the collector's arguments; `Ok` exactly on a well-shaped
    /// argument list, each error with its message.
    pub fn new(args: &Vec<String>) -> (r: Result<Config, &'static str>)
        ensures
            match r {
                Result::Ok(c) => spec_config_args(crate::strings::strs_view(args@)) == Result::<
                    ConfigV,
                    Seq<char>,
                >::Ok(c@),
                Result::Err(e) => spec_config_args(crate::strings::strs_view(args@)) == Result::<
                    ConfigV,
                    Seq<char>,
                >::Err(e@),
            },
    {
        let ghost av = crate::strings::strs_view(args@);
        let n = args.len();
        if n > 6 {
            return Result::Err("too many arguments");
        }
        if n < 2 {
            return Result::Err("not enough arguments");
        }
        if n == 3 || n == 5 {
            return Result::Err("either 'database_name' or 'table_name' was not provided");
        }
        let mut run_name = "run_".to_owned();
        run_name.append(args[1].as_str());
        let db_flag = "--db".to_owned();
        let table_flag = "--table".to_owned();
        let db_name = if n >= 4 && args[2].eq(&db_flag) {
            args[3].clone()
        } else if n >= 6 && args[4].eq(&db_flag) {
            args[5].clone()
        } else {
            "instrumentation.db".to_owned()
        };
        let table_name = if n >= 4 && args[2].eq(&table_flag) {
            args[3].clone()
        } else if n >= 6 && args[4].eq(&table_flag) {
            args[5].clone()
        } else {
            "instrumentation".to_owned()
        };
        let c = Config { db_name, table_name, run_name };
        proof {
            assert(av.len() == n);
            assert(av[1] == args@[1]@);
            assert(spec_config_args(av) == Result::<ConfigV, Seq<char>>::Ok(c@));
        }
        Result::Ok(c)
    }
}

} // verus!
