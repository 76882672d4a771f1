//! Sampling flags.

use vstd::prelude::*;

verus! {

/// The mathematical content of [`SamplingFlags`].
#[verifier::ext_equal]
pub ghost struct FlagsView {
    /// Whether sampling was requested, or `None` when undecided.
    pub sampled: Option<bool>,
    /// Whether the context is in debug mode.
    pub debug: bool,
}

impl FlagsView {
    /// Debug contexts are always sampled.
    pub open spec fn wf(self) -> bool {
        self.debug ==> self.sampled == Some(true)
    }

    /// The flags with neither field set: sampling undecided, not debug.
    pub open spec fn undecided() -> FlagsView {
        FlagsView { sampled: None, debug: false }
    }
}

/// Flags used to control sampling.
///
/// Every value that this module hands out keeps the invariant that the
/// debug flag forces `sampled` to `Some(true)`.
#[derive(Debug, Copy, Clone, PartialEq, Eq)]
pub struct SamplingFlags {
    sampled: Option<bool>,
    debug: bool,
}

impl View for SamplingFlags {
    type V = FlagsView;

    closed spec fn view(&self) -> FlagsView {
        FlagsView { sampled: self.sampled, debug: self.debug }
    }
}

impl SamplingFlags {
    /// Every `SamplingFlags` value obeys the debug-implies-sampled rule.
    #[verifier::type_invariant]
    pub open spec fn inv(self) -> bool {
        self@.wf()
    }

    /// Returns a builder used to construct `SamplingFlags`.
    pub fn builder() -> (r: Builder)
        ensures
            r@ == FlagsView::undecided(),
    {
        Builder { sampled: None, debug: false }
    }

    /// Determines if sampling has been requested for this context.
    ///
    /// A value of `None` indicates that the service working in the context
    /// is responsible for determining if it should be sampled.
    pub fn sampled(&self) -> (r: Option<bool>)
        ensures
            r == self@.sampled,
            self@.wf(),
    {
        proof {
            use_type_invariant(self);
        }
        self.sampled
    }

    /// Determines if this context is in debug mode.
    ///
    /// Debug contexts should always be sampled, regardless of the value of
    /// `sampled()`.
    pub fn debug(&self) -> (r: bool)
        ensures
            r == self@.debug,
            self@.wf(),
    {
        proof {
            use_type_invariant(self);
        }
        self.debug
    }
}

impl Default for SamplingFlags {
    /// Flags with sampling undecided and debug off.
    fn default() -> (r: SamplingFlags)
        ensures
            r@ == FlagsView::undecided(),
            r@.wf(),
    {
        SamplingFlags::builder().build()
    }
}

/// A builder type for `SamplingFlags`.
///
/// The builder's view carries the fields as set so far; `build` is where
/// the debug-implies-sampled rule is enforced.
pub struct Builder {
    sampled: Option<bool>,
    debug: bool,
}

impl View for Builder {
    type V = FlagsView;

    closed spec fn view(&self) -> FlagsView {
        FlagsView { sampled: self.sampled, debug: self.debug }
    }
}

impl From<SamplingFlags> for Builder {
    /// A builder primed with the fields of existing flags.
    fn from(flags: SamplingFlags) -> (r: Builder)
        ensures
            r@ == flags@,
    {
        Builder { sampled: flags.sampled, debug: flags.debug }
    }
}

impl vstd::std_specs::convert::FromSpecImpl<SamplingFlags> for Builder {
    open spec fn obeys_from_spec() -> bool {
        false
    }

    closed spec fn from_spec(flags: SamplingFlags) -> Builder {
        Builder { sampled: flags.sampled, debug: flags.debug }
    }
}

impl Builder {
    /// Sets the sampling request for this context.
    ///
    /// Defaults to `None`.
    pub fn sampled(&mut self, sampled: bool) -> (r: &mut Builder)
        ensures
            r@ == (FlagsView { sampled: Some(sampled), ..old(self)@ }),
            final(self)@ == final(r)@,
    {
        self.sampled = Some(sampled);
        self
    }

    /// Sets the debug flag for this request.
    ///
    /// Defaults to `false`.
    pub fn debug(&mut self, debug: bool) -> (r: &mut Builder)
        ensures
            r@ == (FlagsView { debug: debug, ..old(self)@ }),
            final(self)@ == final(r)@,
    {
        self.debug = debug;
        self
    }

    /// Constructs `SamplingFlags`.
    ///
    /// When the debug flag is set the sampling request is forced to
    /// `Some(true)`, so the built flags always satisfy the invariant that
    /// debug implies sampled.
    pub fn build(&self) -> (r: SamplingFlags)
        ensures
            r@.debug == self@.debug,
            r@.sampled == if self@.debug {
                Some(true)
            } else {
                self@.sampled
            },
            r@.wf(),
    {
        SamplingFlags {
            sampled: if self.debug {
                Some(true)
            } else {
                self.sampled
            },
            debug: self.debug,
        }
    }
}

} // verus!
