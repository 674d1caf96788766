use vstd::prelude::*;

verus! {

/// The archive or compression scheme of a distributable package.
#[derive(Clone, Copy, Debug, PartialEq, Eq, Structural)]
pub enum PkgFmt {
    Tar,
    Tgz,
    Txz,
    Tzstd,
    Zip,
    Bin,
}

} // verus!
