use vstd::prelude::*;

verus! {

/// Why binding a listener failed.
#[derive(PartialEq, Eq, Debug, Structural)]
pub enum BindError<E> {
    /// Every address failed; this is the error of the last one tried.
    LastError(E),
    /// The address resolved to no address at all.
    NoAddress,
}

/// The outcome of trying `attempts` in order, stopping at the first success:
/// that success, else the last error, else `NoAddress`.
pub open spec fn bind_outcome<L, E>(attempts: Seq<Result<L, E>>) -> Result<L, BindError<E>>
    decreases attempts.len(),
{
    if attempts.len() == 0 {
        Err(BindError::NoAddress)
    } else {
        match attempts[0] {
            Ok(listener) => Ok(listener),
            Err(error) => match bind_outcome(attempts.drop_first()) {
                Ok(listener) => Ok(listener),
                Err(BindError::NoAddress) => Err(BindError::LastError(error)),
                Err(other) => Err(other),
            },
        }
    }
}

/// The search through the addresses that a host name resolves to: it keeps
/// the error of the last address that failed.
pub struct BindSearch<E> {
    last_err: Option<E>,
}

impl<E> View for BindSearch<E> {
    type V = Option<E>;

    closed spec fn view(&self) -> Option<E> {
        self.last_err
    }
}

/// The error that ends a search that kept `last_err`.
pub open spec fn finish_model<E>(last_err: Option<E>) -> BindError<E> {
    match last_err {
        Some(error) => BindError::LastError(error),
        None => BindError::NoAddress,
    }
}

impl<E> BindSearch<E> {
    /// A search that has tried no address yet.
    pub fn new() -> (search: Self)
        ensures
            search@ is None,
    {
        BindSearch { last_err: None }
    }

    /// Takes the outcome of binding one address: a success ends the search
    /// and is handed back; an error is kept in place of the one before.
    pub fn record<L>(&mut self, attempt: Result<L, E>) -> (found: Option<L>)
        ensures
            match attempt {
                Ok(listener) => found == Some(listener) && final(self)@ == old(self)@,
                Err(error) => found is None && final(self)@ == Some(error),
            },
    {
        match attempt {
            Ok(listener) => Some(listener),
            Err(error) => {
                self.last_err = Some(error);
                None
            },
        }
    }

    /// Ends a search in which no address could be bound.
    pub fn finish(self) -> (error: BindError<E>)
        ensures
            error == finish_model(self@),
    {
        match self.last_err {
            Some(error) => BindError::LastError(error),
            None => BindError::NoAddress,
        }
    }
}

/// What a search that kept `last_err` and then tries `attempts` ends with,
/// following `record` and `finish`.
pub open spec fn search_model<L, E>(last_err: Option<E>, attempts: Seq<Result<L, E>>) -> Result<
    L,
    BindError<E>,
>
    decreases attempts.len(),
{
    if attempts.len() == 0 {
        Err(finish_model(last_err))
    } else {
        match attempts[0] {
            Ok(listener) => Ok(listener),
            Err(error) => search_model(Some(error), attempts.drop_first()),
        }
    }
}

proof fn lemma_search_continues<L, E>(last_err: Option<E>, attempts: Seq<Result<L, E>>)
    requires
        attempts.len() > 0,
    ensures
        search_model(last_err, attempts) == search_model(None, attempts),
    decreases attempts.len(),
{
    if attempts[0] is Err && attempts.len() > 1 {
        let error = attempts[0]->Err_0;
        lemma_search_continues(Some(error), attempts.drop_first());
    }
}

/// Binding succeeds with the first address that can be bound; when none can,
/// it fails with the error of the last address tried, and with `NoAddress`
/// when there was no address.
pub proof fn law_bind_first_success_else_last_error<L, E>(attempts: Seq<Result<L, E>>)
    ensures
        search_model(None, attempts) == bind_outcome(attempts),
    decreases attempts.len(),
{
    if attempts.len() > 0 {
        law_bind_first_success_else_last_error(attempts.drop_first());
        if attempts[0] is Err {
            let error = attempts[0]->Err_0;
            if attempts.len() > 1 {
                lemma_search_continues(Some(error), attempts.drop_first());
            }
        }
    }
}

} // verus!
