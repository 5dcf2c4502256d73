//! Process-wide configuration, constructed once at startup and passed by
//! reference into the authorization gate and the orchestrator. Loading the
//! values (environment, secret store) is the caller's business; the core only
//! carries them.

use vstd::prelude::*;

verus! {

pub struct AppConfig {
    pub jwt_secret: String,
    pub minio_url: String,
    pub minio_access_key: String,
    pub minio_secret_key: String,
}

impl AppConfig {
    pub fn new(
        jwt_secret: String,
        minio_url: String,
        minio_access_key: String,
        minio_secret_key: String,
    ) -> (c: AppConfig)
        ensures
            c.jwt_secret == jwt_secret,
            c.minio_url == minio_url,
            c.minio_access_key == minio_access_key,
            c.minio_secret_key == minio_secret_key,
    {
        AppConfig { jwt_secret, minio_url, minio_access_key, minio_secret_key }
    }
}

} // verus!
