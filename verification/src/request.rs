//! The request of one connection.

use vstd::prelude::*;
use vstd::string::*;
use crate::context::PageMetadata;
use crate::json::{Json, JsonValue};
use crate::protocol::{Protocol, RequestUrl};
use crate::templates::{Markup, TemplateRequestContext};
use crate::tls::ClientCertificateDetails;

verus! {

broadcast use vstd::string::group_string_axioms;

/// One request: who asks, from where, for which URL and over which
/// protocol, with the template context that its resolution fills.
#[derive(Debug)]
pub struct Request {
    pub peer_addr: String,
    pub url: RequestUrl,
    pub client_certificate_details: ClientCertificateDetails,
    pub protocol: Protocol,
    pub template_context: TemplateRequestContext,
}

impl Request {
    /// Metadata and data of the template context are well-formed documents.
    pub open spec fn wf(&self) -> bool {
        self.template_context.wf()
    }

    /// The request of a peer for a URL. The protocol is that of the URL's
    /// scheme. The template context starts with empty metadata, the given
    /// global data and page listing, and the markup of the protocol.
    pub fn new(
        peer_addr: &str,
        url: RequestUrl,
        client_certificate_details: ClientCertificateDetails,
        data: Json,
        posts: Vec<PageMetadata>,
        os_platform: &str,
    ) -> (r: Request)
        requires
            data.wf(),
        ensures
            r.wf(),
            r.peer_addr@ == peer_addr@,
            r.url == url,
            r.client_certificate_details == client_certificate_details,
            r.protocol == Protocol::for_scheme(url.scheme@),
            r.template_context.meta@ == JsonValue::Object(Map::empty()),
            r.template_context.data == data,
            r.template_context.posts == posts,
            r.template_context.peer_addr@ == peer_addr@,
            r.template_context.path@ == url.path@,
            r.template_context.is_anonymous == (client_certificate_details@ is None),
            r.template_context.is_authenticated == !(client_certificate_details@ is None),
            r.template_context.common_name@ == client_certificate_details.spec_common_name(),
            r.template_context.protocol == r.protocol,
            r.template_context.markup == Markup::spec_default_for_protocol(r.protocol),
            r.template_context.is_gemini == (r.protocol == Protocol::Gemini),
            r.template_context.is_https == (r.protocol == Protocol::Https),
            r.template_context.os_platform@ == os_platform@,
    {
        let protocol = Protocol::from_scheme(url.scheme.as_str());
        let template_context = TemplateRequestContext {
            meta: Json::new_object(),
            data,
            posts,
            peer_addr: peer_addr.to_owned(),
            path: url.path.clone(),
            is_authenticated: !client_certificate_details.is_anonymous(),
            is_anonymous: client_certificate_details.is_anonymous(),
            common_name: client_certificate_details.common_name(),
            protocol,
            markup: Markup::default_for_protocol(protocol),
            is_gemini: protocol == Protocol::Gemini,
            is_https: protocol == Protocol::Https,
            os_platform: os_platform.to_owned(),
        };
        Request {
            peer_addr: peer_addr.to_owned(),
            url,
            client_certificate_details,
            protocol,
            template_context,
        }
    }

    pub fn peer_addr(&self) -> (r: &str)
        ensures
            r@ == self.peer_addr@,
    {
        self.peer_addr.as_str()
    }

    pub fn client_certificate_details(&self) -> (r: &ClientCertificateDetails)
        ensures
            *r == self.client_certificate_details,
    {
        &self.client_certificate_details
    }

    /// The path of the requested URL.
    pub fn path(&self) -> (r: &str)
        ensures
            r@ == self.url.path@,
    {
        self.url.path.as_str()
    }

    pub fn protocol(&self) -> (r: Protocol)
        ensures
            r == self.protocol,
    {
        self.protocol
    }

    pub fn template_context(&self) -> (r: &TemplateRequestContext)
        ensures
            *r == self.template_context,
    {
        &self.template_context
    }

    pub fn mut_template_context(&mut self) -> (r: &mut TemplateRequestContext)
        ensures
            *r == old(self).template_context,
            *final(self) == (Request { template_context: *final(r), ..*old(self) }),
    {
        &mut self.template_context
    }
}

} // verus!
