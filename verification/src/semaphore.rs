use vstd::prelude::*;
use crate::error::{Error, Result};

verus! {

/// A counting semaphore bounded by `max`.
///
/// Waiting that finds the count at zero does not sleep here: `wait`
/// reports that the caller must sleep and try again once woken.
#[derive(Debug)]
pub struct Semaphore {
    pub count: isize,
    pub closed: bool,
    pub max: isize,
}

impl Semaphore {
    pub open spec fn wf(&self) -> bool {
        0 <= self.count <= self.max
    }

    pub fn new(max: isize, name: &'static str) -> (s: Self)
        requires
            max >= 0,
        ensures
            s.wf(),
            s.count == max,
            s.max == max,
            !s.closed,
    {
        let _ = name;
        Self { count: max, closed: false, max }
    }

    pub fn new_with_count(count: isize, max: isize, name: &'static str) -> (r: Result<Self>)
        ensures
            (max < 0 || count < 0 || count > max) <==> r == Err::<Semaphore, Error>(
                Error::InvalidArgument,
            ),
            !(max < 0 || count < 0 || count > max) ==> r is Ok,
            r matches Ok(s) ==> s.wf() && s.count == count && s.max == max && !s.closed,
    {
        let _ = name;
        if max < 0 || count < 0 || count > max {
            return Err(Error::InvalidArgument);
        }
        Ok(Self { count, closed: false, max })
    }

    /// One attempt at `P`: `Ok(true)` when a unit was taken, `Ok(false)` when
    /// the count is zero and the caller must sleep and retry.
    pub fn wait(&mut self, killed: bool) -> (r: Result<bool>)
        requires
            old(self).wf(),
        ensures
            final(self).wf(),
            final(self).max == old(self).max,
            final(self).closed == old(self).closed,
            killed ==> r == Err::<bool, Error>(Error::Interrupted) && final(self).count == old(self).count,
            !killed && old(self).closed ==> r == Err::<bool, Error>(Error::InvalidArgument)
                && final(self).count == old(self).count,
            !killed && !old(self).closed && old(self).count == 0 ==> r == Ok::<bool, Error>(false)
                && final(self).count == 0,
            !killed && !old(self).closed && old(self).count > 0 ==> r == Ok::<bool, Error>(true)
                && final(self).count == old(self).count - 1,
    {
        if killed {
            return Err(Error::Interrupted);
        }
        if self.closed {
            return Err(Error::InvalidArgument);
        }
        if self.count == 0 {
            return Ok(false);
        }
        self.count = self.count - 1;
        Ok(true)
    }

    pub fn try_wait(&mut self) -> (r: Result<bool>)
        requires
            old(self).wf(),
        ensures
            final(self).wf(),
            final(self).max == old(self).max,
            final(self).closed == old(self).closed,
            old(self).closed ==> r == Err::<bool, Error>(Error::InvalidArgument) && final(self).count
                == old(self).count,
            !old(self).closed && old(self).count == 0 ==> r == Ok::<bool, Error>(false)
                && final(self).count == 0,
            !old(self).closed && old(self).count > 0 ==> r == Ok::<bool, Error>(true)
                && final(self).count == old(self).count - 1,
            (*final(self), r) == after_try_wait(*old(self)),
    {
        if self.closed {
            return Err(Error::InvalidArgument);
        }
        if self.count == 0 {
            return Ok(false);
        }
        self.count = self.count - 1;
        Ok(true)
    }

    pub fn can_wait(&self) -> (r: Result<bool>)
        ensures
            self.closed ==> r == Err::<bool, Error>(Error::InvalidArgument),
            !self.closed ==> r == Ok::<bool, Error>(self.count > 0),
    {
        if self.closed {
            return Err(Error::InvalidArgument);
        }
        Ok(self.count > 0)
    }

    /// `V`: gives a unit back; refuses once the count is at `max`.
    pub fn post(&mut self) -> (r: Result<()>)
        requires
            old(self).wf(),
        ensures
            final(self).wf(),
            final(self).max == old(self).max,
            final(self).closed == old(self).closed,
            (old(self).closed || old(self).count == old(self).max) ==> r == Err::<(), Error>(
                Error::InvalidArgument,
            ) && final(self).count == old(self).count,
            !(old(self).closed || old(self).count == old(self).max) ==> r is Ok && final(self).count
                == old(self).count + 1,
            (*final(self), r) == after_post(*old(self)),
    {
        if self.closed {
            return Err(Error::InvalidArgument);
        }
        if self.count == self.max {
            return Err(Error::InvalidArgument);
        }
        self.count = self.count + 1;
        Ok(())
    }

    pub fn close(&mut self)
        ensures
            final(self).closed,
            final(self).count == old(self).count,
            final(self).max == old(self).max,
    {
        self.closed = true;
    }
}

/// The semaphore and the answer after one `try_wait` on `s`.
pub open spec fn after_try_wait(s: Semaphore) -> (Semaphore, Result<bool>) {
    if s.closed {
        (s, Err(Error::InvalidArgument))
    } else if s.count == 0 {
        (s, Ok(false))
    } else {
        (Semaphore { count: (s.count - 1) as isize, ..s }, Ok(true))
    }
}

/// The semaphore and the answer after one `post` on `s`.
pub open spec fn after_post(s: Semaphore) -> (Semaphore, Result<()>) {
    if s.closed || s.count == s.max {
        (s, Err(Error::InvalidArgument))
    } else {
        (Semaphore { count: (s.count + 1) as isize, ..s }, Ok(()))
    }
}

/// A `post` undoes a successful `try_wait`: the semaphore is back as it
/// was.
pub proof fn law_post_undoes_wait(s: Semaphore)
    requires
        s.wf(),
        !s.closed,
        s.count > 0,
    ensures
        after_try_wait(s).1 == Ok::<bool, Error>(true),
        after_try_wait(s).0.wf(),
        after_post(after_try_wait(s).0) == (s, Ok::<(), Error>(())),
{
}

/// A `try_wait` undoes a successful `post`: the semaphore is back as it
/// was.
pub proof fn law_wait_undoes_post(s: Semaphore)
    requires
        s.wf(),
        !s.closed,
        s.count < s.max,
    ensures
        after_post(s).1 == Ok::<(), Error>(()),
        after_post(s).0.wf(),
        after_try_wait(after_post(s).0) == (s, Ok::<bool, Error>(true)),
{
}

/// The count stays between zero and the bound whatever is done: both
/// operations keep a well-formed semaphore well-formed.
pub proof fn law_count_stays_bounded(s: Semaphore)
    requires
        s.wf(),
    ensures
        after_try_wait(s).0.wf(),
        after_post(s).0.wf(),
{
}

} // verus!
