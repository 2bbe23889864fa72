use vstd::prelude::*;
use crate::kv::KvMap;

verus! {

/// The wire message sent to the guest on stdin.
#[derive(Debug)]
pub struct WasmInput {
    /// Request full URL.
    pub url: String,
    /// Request method, upper case.
    pub method: String,
    /// Request headers.
    pub headers: KvMap,
    /// Request body.
    pub body: String,
    /// Key/value store content, empty when no store is supplied.
    pub kv: KvMap,
}

impl WasmInput {
    /// Both mappings carry pairwise distinct keys.
    pub open spec fn wf(&self) -> bool {
        self.headers.wf() && self.kv.wf()
    }

    /// Gathers the data to pass to the guest; a missing key/value store
    /// becomes an empty mapping.
    pub fn new(
        url: String,
        method: String,
        headers: KvMap,
        body: String,
        kv: Option<KvMap>,
    ) -> (r: WasmInput)
        ensures
            r.url@ == url@,
            r.method@ == method@,
            r.headers@ == headers@,
            r.body@ == body@,
            match kv {
                Some(m) => r.kv@ == m@,
                None => r.kv@ =~= Seq::<(Seq<char>, Seq<char>)>::empty(),
            },
            headers.wf() && (kv matches Some(m) ==> m.wf()) ==> r.wf(),
    {
        let store = match kv {
            Some(m) => m,
            None => KvMap::new(),
        };
        WasmInput { url, method, headers, body, kv: store }
    }
}

/// The wire message returned by the guest on stdout.
#[derive(Debug)]
pub struct WasmOutput {
    /// Response body.
    pub body: String,
    /// Response headers.
    pub headers: KvMap,
    /// Response HTTP status.
    pub status: u16,
    /// New state of the key/value store.
    pub kv: KvMap,
}

impl WasmOutput {
    /// Both mappings carry pairwise distinct keys.
    pub open spec fn wf(&self) -> bool {
        self.headers.wf() && self.kv.wf()
    }
}

} // verus!
