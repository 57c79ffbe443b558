//! The client cache: one authenticated client, kept until its token expires,
//! and the entry point that hands it to the paginator.

use crate::error::{Error, ErrorView};
use crate::login::LoginData;
use crate::outside::{current_time, Timestamp};
use crate::pager::{address_outcome, all_results};
use crate::query::ConsolidatedShortInterestQuery;
use crate::stream::RecordStream;
use vstd::pervasive::cloned;
use vstd::prelude::*;

verus! {

/// Where the consolidated short interest is asked for.
pub const SHORT_INTEREST_ENDPOINT: &'static str =
    "https://api.finra.org/data/group/otcmarket/name/consolidatedShortInterest";

/// Where the sample of the consolidated short interest is asked for.
pub const MOCK_SHORT_INTEREST_ENDPOINT: &'static str =
    "https://api.finra.org/data/group/otcmarket/name/consolidatedShortInterestMock";

/// The moment, in nanoseconds since the Unix epoch, at which a token
/// granted at `now` for `validity` seconds expires.
pub open spec fn expiry(now: Timestamp, validity: i64) -> int {
    now.nanos() + validity * 1_000_000_000
}

/// Whether `now` is a moment that the clock can show: its nanoseconds stay
/// within the second.
pub open spec fn is_clock_reading(now: Timestamp) -> bool {
    now.nanoseconds < 1_000_000_000
}

/// The cache: either nobody has logged in yet, or a client is at hand that
/// carries a token valid until the given moment, in nanoseconds since the
/// Unix epoch.
pub enum ClientGetter<B, C> {
    Unauthenticated { login_data: LoginData<B> },
    Authenticated { login_data: LoginData<B>, client: C, valid_until: i128 },
}

impl<B, C> ClientGetter<B, C> {
    /// Whether the cache holds a client whose token has not expired at `now`.
    pub open spec fn fresh_at(self, now: Timestamp) -> bool {
        self matches ClientGetter::Authenticated { valid_until, .. } && now.nanos() < valid_until
    }

    /// The login data that the cache was made with.
    pub open spec fn login(self) -> LoginData<B> {
        match self {
            ClientGetter::Unauthenticated { login_data } => login_data,
            ClientGetter::Authenticated { login_data, .. } => login_data,
        }
    }

    /// The login data to use for the next login.
    pub fn login_data(&self) -> (r: &LoginData<B>)
        ensures
            *r == self.login(),
    {
        match self {
            ClientGetter::Unauthenticated { login_data } => login_data,
            ClientGetter::Authenticated { login_data, .. } => login_data,
        }
    }

    /// Whether a login is due at `now`: nobody has logged in yet, or the
    /// token has expired.  Where none is due the client at hand is used as it
    /// is, without a word to the token endpoint.
    pub fn needs_login_at(&self, now: Timestamp) -> (due: bool)
        ensures
            due == !self.fresh_at(now),
    {
        match self {
            ClientGetter::Unauthenticated { .. } => true,
            ClientGetter::Authenticated { valid_until, .. } => {
                let seconds = now.seconds as i128;
                let nanos: i128 = seconds * 1_000_000_000 + now.nanoseconds as i128;
                !(nanos < *valid_until)
            },
        }
    }

    /// Whether a login is due now, by the clock of the machine: the answer
    /// of [`Self::needs_login_at`] for the moment that the clock shows.  So
    /// one is due in any case where nobody has logged in yet, and none is due
    /// while the token outlasts every moment that the clock can show.
    pub fn needs_login(&self) -> (due: bool)
        ensures
            exists|now: Timestamp|
                is_clock_reading(now) && due == !(#[trigger] self.fresh_at(now)),
            self is Unauthenticated ==> due,
    {
        let now = current_time();
        self.needs_login_at(now)
    }

    /// The client at hand, where somebody has logged in.
    pub fn get_client(&self) -> (r: Option<&C>)
        ensures
            match *self {
                ClientGetter::Authenticated { client, .. } => r == Some(&client),
                ClientGetter::Unauthenticated { .. } => r is None,
            },
    {
        match self {
            ClientGetter::Authenticated { client, .. } => Some(client),
            ClientGetter::Unauthenticated { .. } => None,
        }
    }

    /// Takes in the outcome of a login that was completed at `now`.  A
    /// grant replaces the state as a whole: the new client, valid for the
    /// granted number of seconds from `now` on.  A failure leaves the state
    /// as it was, and is handed back.
    pub fn authenticated_self_at(
        &mut self,
        login_data: LoginData<B>,
        outcome: Result<(C, i64), Error>,
        now: Timestamp,
    ) -> (r: Result<(), Error>)
        ensures
            match outcome {
                Ok((client, validity)) => {
                    &&& r is Ok
                    &&& *final(self) matches ClientGetter::Authenticated {
                        login_data: kept,
                        client: held,
                        valid_until,
                    }
                    &&& kept == login_data
                    &&& held == client
                    &&& valid_until == expiry(now, validity)
                },
                Err(e) => r == Err::<(), Error>(e) && *final(self) == *old(self),
            },
    {
        match outcome {
            Ok((client, validity)) => {
                let seconds = now.seconds as i128;
                let granted_at: i128 = seconds * 1_000_000_000 + now.nanoseconds as i128;
                let valid_until: i128 = granted_at + (validity as i128) * 1_000_000_000;
                *self = ClientGetter::Authenticated { login_data, client, valid_until };
                Ok(())
            },
            Err(e) => Err(e),
        }
    }

    /// Takes in the outcome of a login that was completed just now, by the
    /// clock of the machine: what [`Self::authenticated_self_at`] does for
    /// the moment that the clock shows.  A grant makes the state
    /// authenticated, with the given login data and the new client, valid for
    /// the granted number of seconds from that moment on; a failure leaves
    /// the state as it was, and is handed back.
    pub fn authenticated_self(
        &mut self,
        login_data: LoginData<B>,
        outcome: Result<(C, i64), Error>,
    ) -> (r: Result<(), Error>)
        ensures
            match outcome {
                Ok((client, validity)) => {
                    &&& r is Ok
                    &&& *final(self) matches ClientGetter::Authenticated {
                        login_data: kept,
                        client: held,
                        valid_until,
                    }
                    &&& kept == login_data
                    &&& held == client
                    &&& exists|now: Timestamp|
                        is_clock_reading(now) && valid_until == #[trigger] expiry(now, validity)
                },
                Err(e) => r == Err::<(), Error>(e) && *final(self) == *old(self),
            },
    {
        let now = current_time();
        self.authenticated_self_at(login_data, outcome, now)
    }

    /// Once a login has succeeded at `now`, no login is due at any moment
    /// before the token expires: the client of that login is used as it is.
    pub proof fn lemma_no_login_before_expiry(
        self,
        validity: i64,
        now: Timestamp,
        later: Timestamp,
    )
        requires
            self matches ClientGetter::Authenticated { valid_until, .. } && valid_until == expiry(
                now,
                validity,
            ),
            later.nanos() < expiry(now, validity),
        ensures
            self.fresh_at(later),
    {
    }

    /// A state in which a login is due stays so as time goes on.  So after
    /// a failed login, which leaves the state as it was, the next call logs in
    /// again.
    pub proof fn lemma_login_stays_due(self, now: Timestamp, later: Timestamp)
        requires
            !self.fresh_at(now),
            now.nanos() <= later.nanos(),
        ensures
            !self.fresh_at(later),
    {
    }

    /// Where no login is due, a client is at hand and its token has not
    /// expired.
    pub proof fn lemma_client_in_use_is_fresh(self, now: Timestamp)
        requires
            self.fresh_at(now),
        ensures
            self matches ClientGetter::Authenticated { valid_until, .. } && now.nanos()
                < valid_until,
    {
    }
}

/// The main entry-point to access the data.
pub struct Finra<B, C> {
    /// Whether the sample datasets are asked for in place of the real ones.
    pub use_mock_datasets: bool,
    /// The client cache.
    pub client_getter: ClientGetter<B, C>,
}

/// The address of the consolidated short interest: that of the sample
/// where `use_mock_datasets` is set.
pub open spec fn short_interest_endpoint(use_mock_datasets: bool) -> Seq<char> {
    if use_mock_datasets {
        MOCK_SHORT_INTEREST_ENDPOINT@
    } else {
        SHORT_INTEREST_ENDPOINT@
    }
}

impl<B, C> Finra<B, C> {
    /// Creates a new instance, in which nobody has logged in yet.
    /// `client_builder` is the factory of HTTP client builders; the
    /// `Authorization` header will be set based on the tokens obtained using
    /// the provided `client_id` and `client_secret`.
    pub fn new(
        client_builder: B,
        client_id: String,
        client_secret: String,
        use_mock_datasets: bool,
    ) -> (r: Self)
        ensures
            r == (Finra::<B, C> {
                use_mock_datasets,
                client_getter: ClientGetter::Unauthenticated {
                    login_data: LoginData { client_builder, client_id, client_secret },
                },
            }),
    {
        Finra {
            client_getter: ClientGetter::Unauthenticated {
                login_data: LoginData { client_builder, client_id, client_secret },
            },
            use_mock_datasets,
        }
    }

    /// The address at which the consolidated short interest is asked for.
    pub fn endpoint(&self) -> (r: &'static str)
        ensures
            r@ == short_interest_endpoint(self.use_mock_datasets),
    {
        if self.use_mock_datasets {
            MOCK_SHORT_INTEREST_ENDPOINT
        } else {
            SHORT_INTEREST_ENDPOINT
        }
    }

    /// Starts a query of the consolidated short interest: the stream of its
    /// records, at the first page, over a copy of the client at hand.  Where
    /// nobody has logged in, there is no client to send the query with; with
    /// a client, the address of the dataset is checked as for any walk.
    pub fn consolidated_short_interest<T>(&self, query: ConsolidatedShortInterestQuery) -> (r:
        Result<RecordStream<T, C, ConsolidatedShortInterestQuery>, Error>) where C: Clone
        ensures
            match self.client_getter {
                ClientGetter::Authenticated { client, .. } => match address_outcome(
                    short_interest_endpoint(self.use_mock_datasets),
                ) {
                    Ok(address) => {
                        &&& r matches Ok(stream)
                        &&& cloned(client, stream.pager.client)
                        &&& stream.pager.url@ == address
                        &&& stream.pager.query == query
                        &&& !stream.pager.end
                        &&& stream.pending@ == Seq::<T>::empty()
                    },
                    Err(refusal) => r matches Err(e) && e@ == refusal,
                },
                ClientGetter::Unauthenticated { .. } => r matches Err(e) && e@
                    == ErrorView::CannotConstructHttpClient,
            },
    {
        let endpoint = self.endpoint();
        match self.client_getter.get_client() {
            Some(client) => match all_results(client.clone(), endpoint, query) {
                Ok(pager) => Ok(RecordStream::new(pager)),
                Err(e) => Err(e),
            },
            None => Err(Error::CannotConstructHttpClient),
        }
    }
}

} // verus!
