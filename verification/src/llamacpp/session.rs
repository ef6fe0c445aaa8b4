//! The router that is running and the sessions on it.

use vstd::prelude::*;

use crate::text::{same_text, texts};

verus! {

/// Where a router listens.
#[derive(Debug)]
pub struct RouterInfo {
    pub port: u16,
    pub api_key: String,
    pub pid: u32,
}

/// Where a router listens, as mathematical values.
pub ghost struct Endpoint {
    pub port: u16,
    pub api_key: Seq<char>,
    pub pid: u32,
}

impl View for RouterInfo {
    type V = Endpoint;

    open spec fn view(&self) -> Endpoint {
        Endpoint { port: self.port, api_key: self.api_key@, pid: self.pid }
    }
}

impl Clone for RouterInfo {
    fn clone(&self) -> (r: Self)
        ensures
            r@ == self@,
    {
        RouterInfo { port: self.port, api_key: self.api_key.clone(), pid: self.pid }
    }
}

/// A session: a model on a router.
#[derive(Debug)]
pub struct SessionInfo {
    pub pid: i32,
    pub port: i32,
    pub model_id: String,
    pub is_embedding: bool,
    pub api_key: String,
}

/// How an unload ended.
#[derive(Debug)]
pub struct UnloadResult {
    pub success: bool,
    pub error: Option<String>,
}

/// A 32-bit pattern read as a signed number.
pub open spec fn as_signed(n: u32) -> int {
    if n <= i32::MAX {
        n as int
    } else {
        n - 0x1_0000_0000
    }
}

/// The session is that of the model on the router.
pub open spec fn is_session(
    session: SessionInfo,
    router: Endpoint,
    model_id: Seq<char>,
    is_embedding: bool,
) -> bool {
    &&& session.pid == as_signed(router.pid)
    &&& session.port == router.port
    &&& session.model_id@ == model_id
    &&& session.is_embedding == is_embedding
    &&& session.api_key@ == router.api_key
}

/// The session of a model on a router.
pub fn session_info(router: RouterInfo, model_id: String, is_embedding: bool) -> (r: SessionInfo)
    ensures
        is_session(r, router@, model_id@, is_embedding),
{
    let pid = router.pid;
    proof {
        let bits = pid;
        assert(bits <= 0x7fff_ffff ==> (bits as i32) as int == bits as int) by (bit_vector);
        assert(bits > 0x7fff_ffff ==> (bits as i32) as int == bits as int - 0x1_0000_0000)
            by (bit_vector);
    }
    SessionInfo {
        pid: pid as i32,
        port: router.port as i32,
        model_id,
        is_embedding,
        api_key: router.api_key,
    }
}

/// The session of a model, where the router lists the model among those that it
/// has loaded. Such a session is not one for embeddings.
pub fn find_session(router: RouterInfo, loaded: &Vec<String>, model_id: String) -> (r: Option<
    SessionInfo,
>)
    ensures
        match r {
            Some(session) => {
                &&& texts(loaded@).contains(model_id@)
                &&& is_session(session, router@, model_id@, false)
            },
            None => !texts(loaded@).contains(model_id@),
        },
{
    let mut i: usize = 0;
    while i < loaded.len()
        invariant
            i <= loaded.len(),
            forall|j: int| 0 <= j < i ==> (#[trigger] loaded@[j])@ != model_id@,
        decreases loaded.len() - i,
    {
        if same_text(loaded[i].as_str(), model_id.as_str()) {
            assert(texts(loaded@)[i as int] == model_id@);
            return Some(session_info(router, model_id, false));
        }
        i += 1;
    }
    proof {
        if texts(loaded@).contains(model_id@) {
            let j = choose|j: int| 0 <= j < loaded@.len() && texts(loaded@)[j] == model_id@;
            assert(loaded@[j]@ != model_id@);
        }
    }
    None
}

/// The session of a model, where a router is running that has loaded it. `running`
/// holds the router and its loaded models; without a router there is no session.
pub fn find_session_where_running(
    running: Option<(RouterInfo, Vec<String>)>,
    model_id: String,
) -> (r: Option<SessionInfo>)
    ensures
        match r {
            Some(session) => running matches Some(router) && texts(router.1@).contains(model_id@)
                && is_session(session, router.0@, model_id@, false),
            None => !(running matches Some(router) && texts(router.1@).contains(model_id@)),
        },
{
    match running {
        Some((router, loaded)) => find_session(router, &loaded, model_id),
        None => None,
    }
}

/// The loaded models of the router that is running; none where none is.
pub fn models_where_running(loaded: Option<Vec<String>>) -> (r: Vec<String>)
    ensures
        match loaded {
            Some(models) => r@ == models@,
            None => r@ == Seq::<String>::empty(),
        },
{
    match loaded {
        Some(models) => models,
        None => Vec::new(),
    }
}

/// How an unload ended, for the caller that asked for it.
pub fn unload_result(outcome: Result<(), String>) -> (r: UnloadResult)
    ensures
        r.success == (outcome is Ok),
        match outcome {
            Ok(_) => r.error is None,
            Err(e) => r.error == Some(e),
        },
{
    match outcome {
        Ok(_) => UnloadResult { success: true, error: None },
        Err(e) => UnloadResult { success: false, error: Some(e) },
    }
}

} // verus!
