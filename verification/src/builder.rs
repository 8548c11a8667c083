use vstd::prelude::*;

use crate::aictable::Aictable;
use crate::factory::Factory;

verus! {

/// A builder that configures and creates a [`Factory`](crate::Factory).
///
/// Every knob is optional: an unset starting ID defaults to the domain's
/// minimum value, and looping and rewind both default to off.
pub struct FactoryBuilder<T: Aictable> {
    initial_value: T,
    looping: bool,
    rewind: bool,
}

impl<T: Aictable> FactoryBuilder<T> {
    /// The integer of the configured starting ID.
    pub closed spec fn initial_val(self) -> int {
        self.initial_value.value()
    }

    /// Whether the factory to be built will wrap past the domain maximum.
    pub closed spec fn is_looping(self) -> bool {
        self.looping
    }

    /// Whether the factory to be built will rewind the cursor on removal.
    pub closed spec fn is_rewind(self) -> bool {
        self.rewind
    }

    /// A builder with the default configuration.
    pub fn new() -> (r: Self)
        ensures
            r.initial_val() == T::min_value(),
            !r.is_looping(),
            !r.is_rewind(),
    {
        Self::default()
    }

    /// Sets the ID the built [`Factory`](crate::Factory) starts issuing from.
    ///
    /// - Default: the domain's minimum value.
    pub fn initial_value(self, initial_value: T) -> (r: Self)
        ensures
            r.initial_val() == initial_value.value(),
            r.is_looping() == self.is_looping(),
            r.is_rewind() == self.is_rewind(),
    {
        Self { initial_value, ..self }
    }

    /// If true, the built [`Factory`](crate::Factory) wraps back to the
    /// domain's minimum value after reaching the maximum value.
    ///
    /// - Default: false
    pub fn looping(self, looping: bool) -> (r: Self)
        ensures
            r.initial_val() == self.initial_val(),
            r.is_looping() == looping,
            r.is_rewind() == self.is_rewind(),
    {
        Self { looping, ..self }
    }

    /// If true, the built [`Factory`](crate::Factory) rewinds its cursor to
    /// the position of the latest removed ID.
    ///
    /// - Default: false
    pub fn rewind(self, rewind: bool) -> (r: Self)
        ensures
            r.initial_val() == self.initial_val(),
            r.is_looping() == self.is_looping(),
            r.is_rewind() == rewind,
    {
        Self { rewind, ..self }
    }

    /// Builds the configured [`Factory`](crate::Factory). Never fails.
    pub fn build(self) -> (r: Factory<T>)
        ensures
            r.initial_val() == self.initial_val(),
            r.is_looping() == self.is_looping(),
            r.is_rewind() == self.is_rewind(),
            r.cursor_val() == self.initial_val(),
            r.issued() == Set::<int>::empty(),
    {
        Factory::new(self.initial_value, self.looping, self.rewind)
    }
}

impl<T: Aictable> Default for FactoryBuilder<T> {
    /// A builder for a factory that starts at the domain's minimum value,
    /// with looping and rewind both off.
    fn default() -> (r: Self)
        ensures
            r.initial_val() == T::min_value(),
            !r.is_looping(),
            !r.is_rewind(),
    {
        Self { initial_value: T::initial(), looping: false, rewind: false }
    }
}

} // verus!
