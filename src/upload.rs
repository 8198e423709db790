use vstd::prelude::*;
use vstd::string::StringExecFns;
use crate::clock::{local_now, LocalDateTime};
use crate::error::{bad_request, ApiError};
use crate::http::{upload_success_body, upload_success_text};
use crate::storage::{daily_dir_text, part_accepted, plan_upload_part, stored_name_text, UploadTarget};

verus! {

/// The state of one upload request: where its parts go and whether one was saved.
#[derive(Debug)]
pub struct UploadSession {
    pub root: String,
    /// The reading taken when the request began; it fixes the daily directory.
    pub day: LocalDateTime,
    pub file_saved: bool,
}

impl UploadSession {
    /// Begins an upload into `root` at the reading `day`.
    pub fn at(root: &str, day: LocalDateTime) -> (r: UploadSession)
        ensures
            r.root@ == root@,
            r.day == day,
            !r.file_saved,
    {
        UploadSession { root: String::from_str(root), day, file_saved: false }
    }

    /// Begins an upload into `root` now.
    pub fn start(root: &str) -> (r: UploadSession)
        ensures
            r.root@ == root@,
            r.day.wf(),
            !r.file_saved,
    {
        UploadSession::at(root, local_now())
    }

    /// Decides where a part arriving at reading `now` goes.
    pub fn plan_part_at(
        &self,
        now: &LocalDateTime,
        field_name: Option<&str>,
        file_name: Option<&str>,
    ) -> (r: Result<UploadTarget, ApiError>)
        ensures
            r is Ok <==> part_accepted(field_name, file_name),
            !(field_name is Some && field_name->0@.len() > 0) ==> r is Err
                && r->Err_0.is_bad_request("Field name is missing"@),
            (field_name is Some && field_name->0@.len() > 0) && !(file_name is Some
                && file_name->0@.len() > 0) ==> r is Err && r->Err_0.is_bad_request(
                "File name is missing"@,
            ),
            r is Ok ==> r->Ok_0.dir@ == daily_dir_text(self.root@, self.day),
            r is Ok ==> r->Ok_0.path@ == daily_dir_text(self.root@, self.day) + seq!['/']
                + stored_name_text(now.unix_secs as int, file_name->0@),
    {
        plan_upload_part(self.root.as_str(), &self.day, now, field_name, file_name)
    }

    /// Decides where a part arriving now goes.
    pub fn plan_part(&self, field_name: Option<&str>, file_name: Option<&str>) -> (r: Result<
        UploadTarget,
        ApiError,
    >)
        ensures
            r is Ok <==> part_accepted(field_name, file_name),
            !(field_name is Some && field_name->0@.len() > 0) ==> r is Err
                && r->Err_0.is_bad_request("Field name is missing"@),
            (field_name is Some && field_name->0@.len() > 0) && !(file_name is Some
                && file_name->0@.len() > 0) ==> r is Err && r->Err_0.is_bad_request(
                "File name is missing"@,
            ),
            r is Ok ==> r->Ok_0.dir@ == daily_dir_text(self.root@, self.day),
            r is Ok ==> exists|secs: i64|
                r->Ok_0.path@ == daily_dir_text(self.root@, self.day) + seq!['/']
                    + stored_name_text(secs as int, file_name->0@),
    {
        let now = local_now();
        self.plan_part_at(&now, field_name, file_name)
    }

    /// Notes that a part was written to disk.
    pub fn record_saved(&mut self)
        ensures
            final(self).file_saved,
            final(self).root == old(self).root,
            final(self).day == old(self).day,
    {
        self.file_saved = true;
    }

    /// Ends the request: the success body when a file was saved, else a request error.
    pub fn finish(&self) -> (r: Result<String, ApiError>)
        ensures
            self.file_saved <==> r is Ok,
            r is Ok ==> r->Ok_0@ == upload_success_text(),
            r is Err ==> r->Err_0.is_bad_request("No file was uploaded"@),
    {
        if self.file_saved {
            Ok(upload_success_body())
        } else {
            Err(bad_request("No file was uploaded"))
        }
    }
}

} // verus!
