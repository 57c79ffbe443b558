//! The credentials exchange: what is sent to the token endpoint, and what its
//! answer means.

use crate::decimal::{parse_i64, signed_number};
use crate::error::{Error, ErrorView};
use crate::outside::{
    base64_fits, base64_standard, check_header_value, encode_base64, is_header_text,
    json_document, json_member, member_of, parse_json, JsonMember, JsonMemberView,
};
use crate::status::{push_status, status_shown};
use vstd::pervasive::cloned;
use vstd::prelude::*;

verus! {

/// Where a client-credentials grant is asked for.
pub const OAUTH2_ENDPOINT: &'static str =
    "https://ews.fip.finra.org/fip/rest/ews/oauth2/access_token?grant_type=client_credentials";

/// What is needed to log in: a factory of HTTP client builders, and the
/// identifier and secret of the application.
pub struct LoginData<B> {
    pub client_builder: B,
    pub client_id: String,
    pub client_secret: String,
}

impl<B: Clone> Clone for LoginData<B> {
    /// A copy for one login attempt: the same identifier and secret, and a
    /// copy of the factory.
    fn clone(&self) -> (r: Self)
        ensures
            cloned(self.client_builder, r.client_builder),
            r.client_id == self.client_id,
            r.client_secret == self.client_secret,
    {
        LoginData {
            client_builder: self.client_builder.clone(),
            client_id: self.client_id.clone(),
            client_secret: self.client_secret.clone(),
        }
    }
}

/// The request that asks the token endpoint for a grant.
#[derive(Debug, PartialEq, Eq)]
pub struct LoginRequest {
    /// The address the request is posted to.
    pub url: &'static str,
    /// The value of its `Authorization` header.
    pub authorization: String,
}

/// What a successful login yields.
#[derive(Debug, PartialEq, Eq)]
pub struct TokenGrant {
    /// The value of the `Authorization` header that carries the token.
    pub authorization: String,
    /// For how many seconds the token is valid.
    pub validity: i64,
}

/// What a [`TokenGrant`] holds, as a mathematical value.
pub struct TokenGrantView {
    pub authorization: Seq<char>,
    pub validity: int,
}

impl View for TokenGrant {
    type V = TokenGrantView;

    open spec fn view(&self) -> TokenGrantView {
        TokenGrantView { authorization: self.authorization@, validity: self.validity as int }
    }
}

/// The identifier and the secret, joined by a colon.
pub open spec fn credentials(client_id: Seq<char>, client_secret: Seq<char>) -> Seq<char> {
    client_id + seq![':'] + client_secret
}

/// The `Authorization` header of the login request, where the credentials
/// can be encoded.
pub open spec fn basic_authorization(client_id: Seq<char>, client_secret: Seq<char>) -> Result<
    Seq<char>,
    ErrorView,
> {
    if base64_fits(credentials(client_id, client_secret)) {
        Ok("Basic "@ + base64_standard(credentials(client_id, client_secret)))
    } else {
        Err(ErrorView::InvalidHeaders("credentials are too long to encode"@))
    }
}

/// Builds the `Authorization` header that presents the credentials to the
/// token endpoint.
pub fn basic_auth_header(client_id: &str, client_secret: &str) -> (r: Result<String, Error>)
    ensures
        match r {
            Ok(header) => basic_authorization(client_id@, client_secret@) == Ok::<
                Seq<char>,
                ErrorView,
            >(header@),
            Err(e) => basic_authorization(client_id@, client_secret@) == Err::<
                Seq<char>,
                ErrorView,
            >(e@),
        },
{
    let mut joined = client_id.to_owned();
    joined.push(':');
    joined.append(client_secret);
    assert(joined@ =~= credentials(client_id@, client_secret@));
    let n = joined.as_str().as_bytes().len();
    if n / 3 > (usize::MAX - 4) / 4 {
        Err(Error::InvalidHeaders("credentials are too long to encode".to_owned()))
    } else {
        let encoded = encode_base64(joined.as_str());
        Ok("Basic ".to_owned().concat(encoded.as_str()))
    }
}

/// Builds the request that asks for a token with the given login data.
pub fn login_request<B>(login_data: &LoginData<B>) -> (r: Result<LoginRequest, Error>)
    ensures
        match r {
            Ok(request) => request.url@ == OAUTH2_ENDPOINT@ && basic_authorization(
                login_data.client_id@,
                login_data.client_secret@,
            ) == Ok::<Seq<char>, ErrorView>(request.authorization@),
            Err(e) => basic_authorization(login_data.client_id@, login_data.client_secret@)
                == Err::<Seq<char>, ErrorView>(e@),
        },
{
    match basic_auth_header(login_data.client_id.as_str(), login_data.client_secret.as_str()) {
        Ok(authorization) => Ok(LoginRequest { url: OAUTH2_ENDPOINT, authorization }),
        Err(e) => Err(e),
    }
}

/// What the two members of a token response amount to.  The expiry is looked
/// at first, then the token; the header that carries the token must be one
/// that can be sent.
pub open spec fn grant_of(expires_in: JsonMemberView, access_token: JsonMemberView) -> Result<
    TokenGrantView,
    ErrorView,
> {
    match expires_in {
        JsonMemberView::Missing => Err(
            ErrorView::CannotLogin("the login response didn't contain the expiry of the token"@),
        ),
        JsonMemberView::NotText => Err(
            ErrorView::CannotLogin("the token expiry is not a string in the login response"@),
        ),
        JsonMemberView::Text(expiry) => match signed_number(vstd::utf8::encode_utf8(expiry)) {
            Err(kind) => Err(
                ErrorView::CannotLogin(
                    "could not parse the token expiry as a number: "@ + kind.text(),
                ),
            ),
            Ok(validity) => match access_token {
                JsonMemberView::Missing => Err(
                    ErrorView::CannotLogin("access_token not present in the login response"@),
                ),
                JsonMemberView::NotText => Err(
                    ErrorView::CannotLogin(
                        "access_token is not a string in the login response"@,
                    ),
                ),
                JsonMemberView::Text(token) => if is_header_text("Bearer "@ + token) {
                    Ok(
                        TokenGrantView {
                            authorization: "Bearer "@ + token,
                            validity: validity as int,
                        },
                    )
                } else {
                    Err(ErrorView::InvalidHeaders("failed to parse header value"@))
                },
            },
        },
    }
}

/// Reads a grant from the two members of a token response.
pub fn grant_from_members(expires_in: JsonMember, access_token: JsonMember) -> (r: Result<
    TokenGrant,
    Error,
>)
    ensures
        match r {
            Ok(grant) => grant_of(expires_in@, access_token@) == Ok::<TokenGrantView, ErrorView>(
                grant@,
            ),
            Err(e) => grant_of(expires_in@, access_token@) == Err::<TokenGrantView, ErrorView>(
                e@,
            ),
        },
{
    let expiry = match expires_in {
        JsonMember::Missing => {
            return Err(
                Error::CannotLogin(
                    "the login response didn't contain the expiry of the token".to_owned(),
                ),
            );
        },
        JsonMember::NotText => {
            return Err(
                Error::CannotLogin(
                    "the token expiry is not a string in the login response".to_owned(),
                ),
            );
        },
        JsonMember::Text(text) => text,
    };
    let validity = match parse_i64(expiry.as_str().as_bytes()) {
        Err(kind) => {
            return Err(
                Error::CannotLogin(
                    "could not parse the token expiry as a number: ".to_owned().concat(
                        kind.as_str(),
                    ),
                ),
            );
        },
        Ok(validity) => validity,
    };
    let token = match access_token {
        JsonMember::Missing => {
            return Err(
                Error::CannotLogin("access_token not present in the login response".to_owned()),
            );
        },
        JsonMember::NotText => {
            return Err(
                Error::CannotLogin(
                    "access_token is not a string in the login response".to_owned(),
                ),
            );
        },
        JsonMember::Text(text) => text,
    };
    let authorization = "Bearer ".to_owned().concat(token.as_str());
    match check_header_value(authorization.as_str()) {
        Err(_) => Err(Error::InvalidHeaders("failed to parse header value".to_owned())),
        Ok(_) => Ok(TokenGrant { authorization, validity }),
    }
}

/// What the status code of the token endpoint's answer means: only 200 is
/// a success, and every other status is named in the error.
pub open spec fn login_status_outcome(status: u16) -> Result<(), ErrorView> {
    if status == 200 {
        Ok(())
    } else {
        Err(
            ErrorView::CannotLogin(
                "login attempt failed with status code "@ + status_shown(status),
            ),
        )
    }
}

/// What the body of a successful answer amounts to: it must be a JSON
/// document, and the document must hold the expiry and the token.
pub open spec fn body_outcome(document: Option<Map<Seq<char>, Option<Seq<char>>>>) -> Result<
    TokenGrantView,
    ErrorView,
> {
    match document {
        None => Err(ErrorView::HttpError("error decoding response body"@)),
        Some(members) => grant_of(
            member_of(members, "expires_in"@),
            member_of(members, "access_token"@),
        ),
    }
}

/// What an answer of the token endpoint amounts to: the status is looked at
/// first, then the body.
pub open spec fn login_outcome(
    status: u16,
    document: Option<Map<Seq<char>, Option<Seq<char>>>>,
) -> Result<TokenGrantView, ErrorView> {
    match login_status_outcome(status) {
        Err(e) => Err(e),
        Ok(_) => body_outcome(document),
    }
}

/// Tells by its status code whether the token endpoint accepted the login.
pub fn check_login_status(status: u16) -> (r: Result<(), Error>)
    ensures
        match r {
            Ok(_) => login_status_outcome(status) == Ok::<(), ErrorView>(()),
            Err(e) => login_status_outcome(status) == Err::<(), ErrorView>(e@),
        },
{
    if status != 200 {
        let mut cause = "login attempt failed with status code ".to_owned();
        push_status(&mut cause, status);
        return Err(Error::CannotLogin(cause));
    }
    Ok(())
}

/// Reads the grant from the bytes of the body of a successful answer.
pub fn token_from_body(body: &[u8]) -> (r: Result<TokenGrant, Error>)
    ensures
        match r {
            Ok(grant) => body_outcome(json_document(body@)) == Ok::<TokenGrantView, ErrorView>(
                grant@,
            ),
            Err(e) => body_outcome(json_document(body@)) == Err::<TokenGrantView, ErrorView>(e@),
        },
{
    let doc = match parse_json(body) {
        None => {
            return Err(Error::HttpError("error decoding response body".to_owned()));
        },
        Some(doc) => doc,
    };
    let expires_in = json_member(&doc, "expires_in");
    let access_token = json_member(&doc, "access_token");
    grant_from_members(expires_in, access_token)
}

/// Reads the answer of the token endpoint: its status code and the bytes of
/// its body.
pub fn token_from_response(status: u16, body: &[u8]) -> (r: Result<TokenGrant, Error>)
    ensures
        match r {
            Ok(grant) => login_outcome(status, json_document(body@)) == Ok::<
                TokenGrantView,
                ErrorView,
            >(grant@),
            Err(e) => login_outcome(status, json_document(body@)) == Err::<
                TokenGrantView,
                ErrorView,
            >(e@),
        },
{
    match check_login_status(status) {
        Err(e) => Err(e),
        Ok(_) => token_from_body(body),
    }
}

} // verus!
